//! Kernel-side event-production state machine.
//!
//! Each probe handler is a pure function of the shared kernel state, the
//! socket read and the clock reading: it decides what to record, when to
//! emit an event and how to bound the data.  The keyed tables stand for the
//! kernel maps; a handler can never panic, and every internal failure is
//! swallowed into a benign return code.

use vstd::prelude::*;
use crate::types::{
    ConnectionKey, LatencyEvent, PacketDropEvent, ConnectionState, XdpConnStats,
    spec_valid_latency, MIN_LATENCY_NS, MAX_LATENCY_NS, EVENT_TYPE_RECV, EVENT_TYPE_CLEANUP,
    CONN_STATE_CONNECTING, CONN_STATE_ESTABLISHED, CONN_STATE_CLOSING, CONN_STATE_CLOSED,
};
use crate::socket::{SockCommon, AF_INET, spec_key_of_sock, is_valid_socket,
    extract_connection_key};

verus! {

/// Number of statistics counter slots.
pub const STAT_SLOTS: usize = 16;

/// Counter of all probe activations.
pub const STAT_TOTAL_EVENTS: u32 = 0;

/// Counter of send-path activations.
pub const STAT_SEND_EVENTS: u32 = 1;

/// Counter of receive-path activations.
pub const STAT_RECV_EVENTS: u32 = 2;

/// Counter of receive-buffer-cleanup activations.
pub const STAT_CLEANUP_EVENTS: u32 = 3;

/// Counter of events dropped on the outbound channel.
pub const STAT_DROPPED_EVENTS: u32 = 4;

/// Counter of unreadable or non-IPv4 sockets.
pub const STAT_INVALID_SOCKETS: u32 = 5;

/// Counter of out-of-bounds latency measurements.
pub const STAT_INVALID_LATENCY: u32 = 6;

/// Counter of connections seen opening.
pub const STAT_CONNECTIONS_OPENED: u32 = 7;

/// Counter of connections seen closing.
pub const STAT_CONNECTIONS_CLOSED: u32 = 8;

/// Counter of TCP packets seen at the earliest interception point.
pub const STAT_XDP_TCP_PACKETS: u32 = 9;

/// Counter of UDP packets seen at the earliest interception point.
pub const STAT_XDP_UDP_PACKETS: u32 = 10;

/// Counter of ICMP packets seen at the earliest interception point.
pub const STAT_XDP_ICMP_PACKETS: u32 = 11;

/// Counter of other-protocol packets seen at the earliest interception
/// point.
pub const STAT_XDP_OTHER_PACKETS: u32 = 12;

/// The socket argument as a probe handler receives it: the argument may be
/// missing from the probe context, the pointer may be null or unreadable,
/// or the guarded read yields the socket's fields.
#[derive(Clone, Copy, Debug)]
pub enum SockArg {
    /// The probe context carried no socket argument.
    Missing,
    /// The pointer was null or the guarded read was rejected.
    Unreadable,
    /// The guarded read succeeded.
    Readable(SockCommon),
}

/// A connection's recorded measurement baseline.
#[derive(Clone, Copy, Debug, PartialEq, Eq, Structural)]
pub struct StartEntry {
    /// The connection.
    pub key: ConnectionKey,
    /// The baseline timestamp, in nanoseconds.
    pub start_ns: u64,
}

/// Per-connection packet counters keyed at the earliest interception point.
#[derive(Clone, Copy, Debug, PartialEq, Eq, Structural)]
pub struct XdpEntry {
    /// The connection.
    pub key: ConnectionKey,
    /// Its counters.
    pub stats: XdpConnStats,
}

/// No two baseline entries share a key.
pub open spec fn start_keys_unique(cs: Seq<StartEntry>) -> bool {
    forall|i: int, j: int|
        0 <= i < j < cs.len() ==> (#[trigger] cs[i]).key != (#[trigger] cs[j]).key
}

/// Some baseline entry carries `key`.
pub open spec fn spec_has_start(cs: Seq<StartEntry>, key: ConnectionKey) -> bool {
    exists|i: int| 0 <= i < cs.len() && (#[trigger] cs[i]).key == key
}

/// The index of the baseline entry carrying `key`, when one exists.
pub open spec fn spec_start_index(cs: Seq<StartEntry>, key: ConnectionKey) -> int {
    choose|i: int| 0 <= i < cs.len() && (#[trigger] cs[i]).key == key
}

/// The baseline recorded for `key`, if any.
pub open spec fn spec_start_of(cs: Seq<StartEntry>, key: ConnectionKey) -> Option<u64> {
    if spec_has_start(cs, key) {
        Some(cs[spec_start_index(cs, key)].start_ns)
    } else {
        None
    }
}

/// Replacing a baseline entry by one with the same key changes only that
/// key's baseline.
proof fn lemma_start_update(c: Seq<StartEntry>, i: int, e: StartEntry)
    requires
        start_keys_unique(c),
        0 <= i < c.len(),
        e.key == c[i].key,
    ensures
        start_keys_unique(c.update(i, e)),
        spec_has_start(c, e.key),
        spec_start_of(c, e.key) == Some(c[i].start_ns),
        spec_has_start(c.update(i, e), e.key),
        spec_start_of(c.update(i, e), e.key) == Some(e.start_ns),
        forall|k: ConnectionKey|
            k != e.key ==> spec_has_start(c.update(i, e), k) == spec_has_start(c, k),
        forall|k: ConnectionKey|
            k != e.key ==> spec_start_of(c.update(i, e), k) == spec_start_of(c, k),
{
    let f = c.update(i, e);
    assert(f[i].key == e.key);
    let j = spec_start_index(c, e.key);
    assert(0 <= j < c.len() && c[j].key == e.key);
    assert(j == i);
    let j2 = spec_start_index(f, e.key);
    assert(0 <= j2 < f.len() && f[j2].key == e.key);
    assert(j2 == i);
    assert forall|k: ConnectionKey| k != e.key implies spec_has_start(f, k) == spec_has_start(c, k)
        && spec_start_of(f, k) == spec_start_of(c, k) by {
        if spec_has_start(c, k) {
            let a = spec_start_index(c, k);
            assert(0 <= a < c.len() && c[a].key == k);
            assert(a != i);
            assert(f[a].key == k);
            assert(spec_has_start(f, k));
            let b = spec_start_index(f, k);
            assert(0 <= b < f.len() && f[b].key == k);
            assert(b != i);
            assert(c[b].key == k);
            assert(b == a);
        } else {
            if spec_has_start(f, k) {
                let b = spec_start_index(f, k);
                assert(0 <= b < f.len() && f[b].key == k);
                assert(b != i);
                assert(c[b].key == k);
                assert(false);
            }
        }
    }
}

/// Appending a baseline entry with an unseen key changes only that key's
/// baseline.
proof fn lemma_start_push(c: Seq<StartEntry>, e: StartEntry)
    requires
        start_keys_unique(c),
        forall|i: int| 0 <= i < c.len() ==> (#[trigger] c[i]).key != e.key,
    ensures
        start_keys_unique(c.push(e)),
        !spec_has_start(c, e.key),
        spec_start_of(c, e.key) is None,
        spec_has_start(c.push(e), e.key),
        spec_start_of(c.push(e), e.key) == Some(e.start_ns),
        forall|k: ConnectionKey|
            k != e.key ==> spec_has_start(c.push(e), k) == spec_has_start(c, k),
        forall|k: ConnectionKey|
            k != e.key ==> spec_start_of(c.push(e), k) == spec_start_of(c, k),
{
    let f = c.push(e);
    let n = c.len() as int;
    assert(f[n].key == e.key);
    assert(spec_has_start(f, e.key));
    assert forall|i: int, j: int| 0 <= i < j < f.len() implies (#[trigger] f[i]).key != (
    #[trigger] f[j]).key by {
        if j < n {
            assert(f[i] == c[i] && f[j] == c[j]);
        } else {
            assert(f[i] == c[i] && f[j] == e);
        }
    }
    let j2 = spec_start_index(f, e.key);
    assert(0 <= j2 < f.len() && f[j2].key == e.key);
    assert(j2 == n);
    assert forall|k: ConnectionKey| k != e.key implies spec_has_start(f, k) == spec_has_start(c, k)
        && spec_start_of(f, k) == spec_start_of(c, k) by {
        if spec_has_start(c, k) {
            let a = spec_start_index(c, k);
            assert(0 <= a < c.len() && c[a].key == k);
            assert(f[a].key == k);
            assert(spec_has_start(f, k));
            let b = spec_start_index(f, k);
            assert(0 <= b < f.len() && f[b].key == k);
            assert(b != n);
            assert(c[b].key == k);
            assert(b == a);
        } else {
            if spec_has_start(f, k) {
                let b = spec_start_index(f, k);
                assert(0 <= b < f.len() && f[b].key == k);
                assert(b != n);
                assert(c[b].key == k);
                assert(false);
            }
        }
    }
}

/// Find the baseline entry carrying `key`.
fn find_start(cs: &Vec<StartEntry>, key: &ConnectionKey) -> (r: Option<usize>)
    ensures
        match r {
            Option::Some(i) => 0 <= i < cs@.len() && cs@[i as int].key == *key,
            Option::None => forall|i: int| 0 <= i < cs@.len() ==> (#[trigger] cs@[i]).key != *key,
        },
{
    let mut i: usize = 0;
    while i < cs.len()
        invariant
            i <= cs@.len(),
            forall|j: int| 0 <= j < i ==> (#[trigger] cs@[j]).key != *key,
        decreases cs@.len() - i,
    {
        if cs[i].key == *key {
            return Some(i);
        }
        i = i + 1;
    }
    None
}

/// A counter incremented by one, wrapping at the top as the kernel-side
/// non-atomic read-modify-write does.
pub open spec fn spec_wrap_inc(x: u64) -> u64 {
    if x == u64::MAX {
        0
    } else {
        (x + 1) as u64
    }
}

/// The statistics table after one increment of slot `id`; an out-of-range
/// slot leaves the table unchanged.
pub open spec fn spec_bump(stats: Seq<u64>, id: u32) -> Seq<u64> {
    if id < 16 {
        stats.update(id as int, spec_wrap_inc(stats[id as int]))
    } else {
        stats
    }
}

/// The shared kernel-side state: the keyed maps and the statistics table.
#[derive(Debug)]
pub struct KernelState {
    /// Per-connection measurement baselines.
    pub connection_start: Vec<StartEntry>,
    /// Per-connection lifecycle records.
    pub conn_states: Vec<ConnectionState>,
    /// Per-connection packet counters from the earliest interception point.
    pub xdp_stats: Vec<XdpEntry>,
    /// The statistics counters, one slot per named condition.
    pub stats: Vec<u64>,
}

/// No two lifecycle records share a key.
pub open spec fn cstate_keys_unique(cs: Seq<ConnectionState>) -> bool {
    forall|i: int, j: int|
        0 <= i < j < cs.len() ==> (#[trigger] cs[i]).key != (#[trigger] cs[j]).key
}

/// Some lifecycle record carries `key`.
pub open spec fn spec_has_cstate(cs: Seq<ConnectionState>, key: ConnectionKey) -> bool {
    exists|i: int| 0 <= i < cs.len() && (#[trigger] cs[i]).key == key
}

/// The index of the lifecycle record carrying `key`, when one exists.
pub open spec fn spec_cstate_index(cs: Seq<ConnectionState>, key: ConnectionKey) -> int {
    choose|i: int| 0 <= i < cs.len() && (#[trigger] cs[i]).key == key
}

/// The lifecycle record for `key`, if any.
pub open spec fn spec_cstate_of(cs: Seq<ConnectionState>, key: ConnectionKey) -> Option<
    ConnectionState,
> {
    if spec_has_cstate(cs, key) {
        Some(cs[spec_cstate_index(cs, key)])
    } else {
        None
    }
}

/// No two packet-counter entries share a key.
pub open spec fn xdp_keys_unique(cs: Seq<XdpEntry>) -> bool {
    forall|i: int, j: int|
        0 <= i < j < cs.len() ==> (#[trigger] cs[i]).key != (#[trigger] cs[j]).key
}

/// Some packet-counter entry carries `key`.
pub open spec fn spec_has_xdp(cs: Seq<XdpEntry>, key: ConnectionKey) -> bool {
    exists|i: int| 0 <= i < cs.len() && (#[trigger] cs[i]).key == key
}

/// The index of the packet-counter entry carrying `key`, when one exists.
pub open spec fn spec_xdp_index(cs: Seq<XdpEntry>, key: ConnectionKey) -> int {
    choose|i: int| 0 <= i < cs.len() && (#[trigger] cs[i]).key == key
}

/// The packet counters for `key`, if any.
pub open spec fn spec_xdp_of(cs: Seq<XdpEntry>, key: ConnectionKey) -> Option<XdpConnStats> {
    if spec_has_xdp(cs, key) {
        Some(cs[spec_xdp_index(cs, key)].stats)
    } else {
        None
    }
}

impl KernelState {
    /// State invariant: the statistics table has all its slots and every
    /// keyed table holds at most one entry per connection.
    pub open spec fn well_formed(self) -> bool {
        &&& self.stats@.len() == STAT_SLOTS
        &&& start_keys_unique(self.connection_start@)
        &&& cstate_keys_unique(self.conn_states@)
        &&& xdp_keys_unique(self.xdp_stats@)
    }

    /// The value of statistics counter `id`, 0 for an out-of-range slot.
    pub open spec fn spec_stat(self, id: u32) -> u64 {
        if id < 16 {
            self.stats@[id as int]
        } else {
            0
        }
    }

    /// Create the initial kernel state: empty tables, all counters zero.
    pub fn new() -> (r: KernelState)
        ensures
            r.well_formed(),
            r.connection_start@.len() == 0,
            r.conn_states@.len() == 0,
            r.xdp_stats@.len() == 0,
            r.stats@ == Seq::<u64>::new(STAT_SLOTS as nat, |i: int| 0u64),
    {
        let mut stats: Vec<u64> = Vec::new();
        let mut i: usize = 0;
        while i < STAT_SLOTS
            invariant
                i <= STAT_SLOTS,
                stats@ == Seq::<u64>::new(i as nat, |j: int| 0u64),
            decreases STAT_SLOTS - i,
        {
            stats.push(0);
            proof {
                assert(Seq::<u64>::new((i + 1) as nat, |j: int| 0u64) =~= Seq::<u64>::new(
                    i as nat,
                    |j: int| 0u64,
                ).push(0u64));
            }
            i = i + 1;
        }
        KernelState {
            connection_start: Vec::new(),
            conn_states: Vec::new(),
            xdp_stats: Vec::new(),
            stats,
        }
    }

    /// Increment statistics counter `stat_id`.
    ///
    /// The increment wraps at the top of the range, as the kernel-side
    /// non-atomic read-modify-write does; an out-of-range slot is ignored.
    pub fn increment_stat(&mut self, stat_id: u32)
        requires
            old(self).well_formed(),
        ensures
            final(self).well_formed(),
            final(self).stats@ == spec_bump(old(self).stats@, stat_id),
            final(self).connection_start@ == old(self).connection_start@,
            final(self).conn_states@ == old(self).conn_states@,
            final(self).xdp_stats@ == old(self).xdp_stats@,
    {
        if stat_id < 16 {
            let i = stat_id as usize;
            let v = self.stats[i];
            let nv: u64 = if v == u64::MAX {
                0
            } else {
                v + 1
            };
            self.stats[i] = nv;
        }
    }

    /// Record `now` as the measurement baseline for `key`, overwriting any
    /// prior baseline.
    pub fn set_start(&mut self, key: ConnectionKey, now: u64)
        requires
            old(self).well_formed(),
        ensures
            final(self).well_formed(),
            spec_start_of(final(self).connection_start@, key) == Some(now),
            forall|k: ConnectionKey|
                k != key ==> spec_start_of(final(self).connection_start@, k) == spec_start_of(
                    old(self).connection_start@,
                    k,
                ),
            final(self).conn_states@ == old(self).conn_states@,
            final(self).xdp_stats@ == old(self).xdp_stats@,
            final(self).stats@ == old(self).stats@,
    {
        let entry = StartEntry { key, start_ns: now };
        match find_start(&self.connection_start, &key) {
            Some(i) => {
                let ghost c = self.connection_start@;
                let _ = self.connection_start.remove(i);
                self.connection_start.insert(i, entry);
                proof {
                    c.remove_ensures(i as int);
                    c.remove(i as int).insert_ensures(i as int, entry);
                    assert(self.connection_start@ =~= c.update(i as int, entry));
                    lemma_start_update(c, i as int, entry);
                }
            },
            None => {
                let ghost c = self.connection_start@;
                self.connection_start.push(entry);
                proof {
                    lemma_start_push(c, entry);
                }
            },
        }
    }

    /// Look up the measurement baseline for `key`.
    pub fn get_start(&self, key: &ConnectionKey) -> (r: Option<u64>)
        requires
            self.well_formed(),
        ensures
            r == spec_start_of(self.connection_start@, *key),
    {
        match find_start(&self.connection_start, key) {
            Some(i) => {
                let v = self.connection_start[i].start_ns;
                proof {
                    assert(spec_has_start(self.connection_start@, *key));
                    let b = spec_start_index(self.connection_start@, *key);
                    assert(0 <= b < self.connection_start@.len()
                        && self.connection_start@[b].key == *key);
                    assert(b == i as int);
                }
                Some(v)
            },
            None => {
                proof {
                    if spec_has_start(self.connection_start@, *key) {
                        let b = spec_start_index(self.connection_start@, *key);
                        assert(0 <= b < self.connection_start@.len()
                            && self.connection_start@[b].key == *key);
                        assert(false);
                    }
                }
                None
            },
        }
    }
}

/// Replacing a lifecycle record by one with the same key changes only that
/// key's record.
proof fn lemma_cstate_update(c: Seq<ConnectionState>, i: int, e: ConnectionState)
    requires
        cstate_keys_unique(c),
        0 <= i < c.len(),
        e.key == c[i].key,
    ensures
        cstate_keys_unique(c.update(i, e)),
        spec_has_cstate(c, e.key),
        spec_cstate_of(c, e.key) == Some(c[i]),
        spec_has_cstate(c.update(i, e), e.key),
        spec_cstate_of(c.update(i, e), e.key) == Some(e),
        forall|k: ConnectionKey|
            k != e.key ==> spec_cstate_of(c.update(i, e), k) == spec_cstate_of(c, k),
{
    let f = c.update(i, e);
    assert(f[i].key == e.key);
    let j = spec_cstate_index(c, e.key);
    assert(0 <= j < c.len() && c[j].key == e.key);
    assert(j == i);
    let j2 = spec_cstate_index(f, e.key);
    assert(0 <= j2 < f.len() && f[j2].key == e.key);
    assert(j2 == i);
    assert forall|k: ConnectionKey| k != e.key implies spec_cstate_of(f, k) == spec_cstate_of(
        c,
        k,
    ) by {
        if spec_has_cstate(c, k) {
            let a = spec_cstate_index(c, k);
            assert(0 <= a < c.len() && c[a].key == k);
            assert(a != i);
            assert(f[a].key == k);
            assert(spec_has_cstate(f, k));
            let b = spec_cstate_index(f, k);
            assert(0 <= b < f.len() && f[b].key == k);
            assert(b != i);
            assert(c[b].key == k);
            assert(b == a);
        } else {
            if spec_has_cstate(f, k) {
                let b = spec_cstate_index(f, k);
                assert(0 <= b < f.len() && f[b].key == k);
                assert(b != i);
                assert(c[b].key == k);
                assert(false);
            }
        }
    }
}

/// Appending a lifecycle record with an unseen key changes only that key's
/// record.
proof fn lemma_cstate_push(c: Seq<ConnectionState>, e: ConnectionState)
    requires
        cstate_keys_unique(c),
        forall|i: int| 0 <= i < c.len() ==> (#[trigger] c[i]).key != e.key,
    ensures
        cstate_keys_unique(c.push(e)),
        !spec_has_cstate(c, e.key),
        spec_cstate_of(c, e.key) is None,
        spec_has_cstate(c.push(e), e.key),
        spec_cstate_of(c.push(e), e.key) == Some(e),
        forall|k: ConnectionKey|
            k != e.key ==> spec_cstate_of(c.push(e), k) == spec_cstate_of(c, k),
{
    let f = c.push(e);
    let n = c.len() as int;
    assert(f[n].key == e.key);
    assert(spec_has_cstate(f, e.key));
    assert forall|i: int, j: int| 0 <= i < j < f.len() implies (#[trigger] f[i]).key != (
    #[trigger] f[j]).key by {
        if j < n {
            assert(f[i] == c[i] && f[j] == c[j]);
        } else {
            assert(f[i] == c[i] && f[j] == e);
        }
    }
    let j2 = spec_cstate_index(f, e.key);
    assert(0 <= j2 < f.len() && f[j2].key == e.key);
    assert(j2 == n);
    assert forall|k: ConnectionKey| k != e.key implies spec_cstate_of(f, k) == spec_cstate_of(
        c,
        k,
    ) by {
        if spec_has_cstate(c, k) {
            let a = spec_cstate_index(c, k);
            assert(0 <= a < c.len() && c[a].key == k);
            assert(f[a].key == k);
            assert(spec_has_cstate(f, k));
            let b = spec_cstate_index(f, k);
            assert(0 <= b < f.len() && f[b].key == k);
            assert(b != n);
            assert(c[b].key == k);
            assert(b == a);
        } else {
            if spec_has_cstate(f, k) {
                let b = spec_cstate_index(f, k);
                assert(0 <= b < f.len() && f[b].key == k);
                assert(b != n);
                assert(c[b].key == k);
                assert(false);
            }
        }
    }
}

/// Find the lifecycle record carrying `key`.
fn find_cstate(cs: &Vec<ConnectionState>, key: &ConnectionKey) -> (r: Option<usize>)
    ensures
        match r {
            Option::Some(i) => 0 <= i < cs@.len() && cs@[i as int].key == *key,
            Option::None => forall|i: int| 0 <= i < cs@.len() ==> (#[trigger] cs@[i]).key != *key,
        },
{
    let mut i: usize = 0;
    while i < cs.len()
        invariant
            i <= cs@.len(),
            forall|j: int| 0 <= j < i ==> (#[trigger] cs@[j]).key != *key,
        decreases cs@.len() - i,
    {
        if cs[i].key == *key {
            return Some(i);
        }
        i = i + 1;
    }
    None
}

impl KernelState {
    /// Look up the lifecycle record for `key`.
    pub fn get_conn_state(&self, key: &ConnectionKey) -> (r: Option<ConnectionState>)
        requires
            self.well_formed(),
        ensures
            r == spec_cstate_of(self.conn_states@, *key),
    {
        match find_cstate(&self.conn_states, key) {
            Some(i) => {
                let v = self.conn_states[i];
                proof {
                    assert(spec_has_cstate(self.conn_states@, *key));
                    let b = spec_cstate_index(self.conn_states@, *key);
                    assert(0 <= b < self.conn_states@.len() && self.conn_states@[b].key == *key);
                    assert(b == i as int);
                }
                Some(v)
            },
            None => {
                proof {
                    if spec_has_cstate(self.conn_states@, *key) {
                        let b = spec_cstate_index(self.conn_states@, *key);
                        assert(0 <= b < self.conn_states@.len() && self.conn_states@[b].key
                            == *key);
                        assert(false);
                    }
                }
                None
            },
        }
    }

    /// Store the lifecycle record for its key, overwriting any prior one.
    pub fn set_conn_state(&mut self, entry: ConnectionState)
        requires
            old(self).well_formed(),
        ensures
            final(self).well_formed(),
            spec_cstate_of(final(self).conn_states@, entry.key) == Some(entry),
            forall|k: ConnectionKey|
                k != entry.key ==> spec_cstate_of(final(self).conn_states@, k) == spec_cstate_of(
                    old(self).conn_states@,
                    k,
                ),
            final(self).connection_start@ == old(self).connection_start@,
            final(self).xdp_stats@ == old(self).xdp_stats@,
            final(self).stats@ == old(self).stats@,
    {
        match find_cstate(&self.conn_states, &entry.key) {
            Some(i) => {
                let ghost c = self.conn_states@;
                let _ = self.conn_states.remove(i);
                self.conn_states.insert(i, entry);
                proof {
                    c.remove_ensures(i as int);
                    c.remove(i as int).insert_ensures(i as int, entry);
                    assert(self.conn_states@ =~= c.update(i as int, entry));
                    lemma_cstate_update(c, i as int, entry);
                }
            },
            None => {
                let ghost c = self.conn_states@;
                self.conn_states.push(entry);
                proof {
                    lemma_cstate_push(c, entry);
                }
            },
        }
    }
}

/// The lifecycle state a raw kernel TCP state integer maps to: 1 through 6
/// are established, 7 is closed, 8 through 10 are closing, anything else is
/// still connecting.
pub open spec fn spec_map_tcp_state(raw: u8) -> u8 {
    if 1 <= raw <= 6 {
        CONN_STATE_ESTABLISHED
    } else if raw == 7 {
        CONN_STATE_CLOSED
    } else if 8 <= raw <= 10 {
        CONN_STATE_CLOSING
    } else {
        CONN_STATE_CONNECTING
    }
}

/// Map a raw kernel TCP state integer onto the tracked lifecycle states.
pub fn map_tcp_state(raw: u8) -> (r: u8)
    ensures
        r == spec_map_tcp_state(raw),
{
    if 1 <= raw && raw <= 6 {
        CONN_STATE_ESTABLISHED
    } else if raw == 7 {
        CONN_STATE_CLOSED
    } else if 8 <= raw && raw <= 10 {
        CONN_STATE_CLOSING
    } else {
        CONN_STATE_CONNECTING
    }
}

/// The lifecycle record owed after a state-change hook: an existing record
/// keeps its identity and changes state, stamping the close time on a
/// transition to closed; an unseen connection gets a fresh record started
/// at `now`.
pub open spec fn spec_state_change_record(
    prior: Option<ConnectionState>,
    key: ConnectionKey,
    raw: u8,
    now: u64,
    pid: u32,
) -> ConnectionState {
    let mapped = spec_map_tcp_state(raw);
    match prior {
        Some(e) => ConnectionState {
            state: mapped,
            close_time_ns: if mapped == CONN_STATE_CLOSED {
                now
            } else {
                e.close_time_ns
            },
            ..e
        },
        None => ConnectionState {
            key,
            start_time_ns: now,
            close_time_ns: if mapped == CONN_STATE_CLOSED {
                now
            } else {
                0
            },
            state: mapped,
            bytes_sent: 0,
            bytes_received: 0,
            pid,
        },
    }
}

/// State-change hook: track the connection's lifecycle.
///
/// A raw state of 1 counts a connection opened, 7 counts one closed; the
/// record for the key is updated in place, or created started at `now`.
pub fn tcp_set_state(
    state: &mut KernelState,
    key: ConnectionKey,
    raw_state: u8,
    now: u64,
    pid: u32,
) -> (r: u32)
    requires
        old(state).well_formed(),
    ensures
        final(state).well_formed(),
        r == 0u32,
        final(state).connection_start@ == old(state).connection_start@,
        final(state).xdp_stats@ == old(state).xdp_stats@,
        final(state).stats@ == (
        if raw_state == 1 {
            spec_bump(old(state).stats@, STAT_CONNECTIONS_OPENED)
        } else if raw_state == 7 {
            spec_bump(old(state).stats@, STAT_CONNECTIONS_CLOSED)
        } else {
            old(state).stats@
        }),
        spec_cstate_of(final(state).conn_states@, key) == Some(
            spec_state_change_record(
                spec_cstate_of(old(state).conn_states@, key),
                key,
                raw_state,
                now,
                pid,
            ),
        ),
        forall|k: ConnectionKey|
            k != key ==> spec_cstate_of(final(state).conn_states@, k) == spec_cstate_of(
                old(state).conn_states@,
                k,
            ),
{
    if raw_state == 1 {
        state.increment_stat(STAT_CONNECTIONS_OPENED);
    } else if raw_state == 7 {
        state.increment_stat(STAT_CONNECTIONS_CLOSED);
    }
    let mapped = map_tcp_state(raw_state);
    let entry = match state.get_conn_state(&key) {
        Some(e) => ConnectionState {
            state: mapped,
            close_time_ns: if mapped == CONN_STATE_CLOSED {
                now
            } else {
                e.close_time_ns
            },
            ..e
        },
        None => ConnectionState {
            key,
            start_time_ns: now,
            close_time_ns: if mapped == CONN_STATE_CLOSED {
                now
            } else {
                0
            },
            state: mapped,
            bytes_sent: 0,
            bytes_received: 0,
            pid,
        },
    };
    state.set_conn_state(entry);
    0
}

/// Connect-initiated hook: unconditionally create a fresh connecting
/// record for the key, overwriting any stale prior record.
pub fn tcp_connect(state: &mut KernelState, key: ConnectionKey, now: u64, pid: u32) -> (r: u32)
    requires
        old(state).well_formed(),
    ensures
        final(state).well_formed(),
        r == 0u32,
        final(state).connection_start@ == old(state).connection_start@,
        final(state).xdp_stats@ == old(state).xdp_stats@,
        final(state).stats@ == old(state).stats@,
        spec_cstate_of(final(state).conn_states@, key) == Some(
            ConnectionState {
                key,
                start_time_ns: now,
                close_time_ns: 0,
                state: CONN_STATE_CONNECTING,
                bytes_sent: 0,
                bytes_received: 0,
                pid,
            },
        ),
        forall|k: ConnectionKey|
            k != key ==> spec_cstate_of(final(state).conn_states@, k) == spec_cstate_of(
                old(state).conn_states@,
                k,
            ),
{
    let entry = ConnectionState {
        key,
        start_time_ns: now,
        close_time_ns: 0,
        state: CONN_STATE_CONNECTING,
        bytes_sent: 0,
        bytes_received: 0,
        pid,
    };
    state.set_conn_state(entry);
    0
}

/// Close hook: if the connection is tracked, force its state to closing
/// and stamp the close time.
///
/// This may precede the closed transition from the state-change hook; both
/// are applied and the last write wins.
pub fn tcp_close(state: &mut KernelState, key: ConnectionKey, now: u64) -> (r: u32)
    requires
        old(state).well_formed(),
    ensures
        final(state).well_formed(),
        r == 0u32,
        final(state).connection_start@ == old(state).connection_start@,
        final(state).xdp_stats@ == old(state).xdp_stats@,
        final(state).stats@ == old(state).stats@,
        spec_cstate_of(final(state).conn_states@, key) == (
        match spec_cstate_of(old(state).conn_states@, key) {
            Some(e) => Some(
                ConnectionState { state: CONN_STATE_CLOSING, close_time_ns: now, ..e },
            ),
            None => None::<ConnectionState>,
        }),
        forall|k: ConnectionKey|
            k != key ==> spec_cstate_of(final(state).conn_states@, k) == spec_cstate_of(
                old(state).conn_states@,
                k,
            ),
{
    match state.get_conn_state(&key) {
        Some(e) => {
            let entry = ConnectionState { state: CONN_STATE_CLOSING, close_time_ns: now, ..e };
            state.set_conn_state(entry);
        },
        None => {},
    }
    0
}

/// The process id half of a combined pid/tgid value, as yielded by the
/// kernel's pid/tgid helper.
pub fn get_pid(pid_tgid: u64) -> (r: u32)
    ensures
        r == (pid_tgid >> 32) as u32,
{
    (pid_tgid >> 32) as u32
}

/// The thread id half of a combined pid/tgid value, as yielded by the
/// kernel's pid/tgid helper.
pub fn get_tid(pid_tgid: u64) -> (r: u32)
    ensures
        r == (pid_tgid & 0xFFFFFFFF) as u32,
{
    (pid_tgid & 0xFFFFFFFF) as u32
}

/// True when the measurement lies inside the valid latency window.
pub fn is_valid_latency(latency_ns: u64) -> (r: bool)
    ensures
        r == spec_valid_latency(latency_ns),
{
    latency_ns >= MIN_LATENCY_NS && latency_ns <= MAX_LATENCY_NS
}

/// Construct a properly formed latency event.
pub fn create_latency_event(
    key: ConnectionKey,
    timestamp_ns: u64,
    latency_ns: u64,
    pid: u32,
    event_type: u8,
) -> (r: LatencyEvent)
    ensures
        r == (LatencyEvent { key, timestamp_ns, latency_ns, pid, event_type }),
{
    LatencyEvent { key, timestamp_ns, latency_ns, pid, event_type }
}

/// Construct a packet drop event; an unresolved connection context yields
/// the all-zero key.
pub fn create_drop_event(
    key: Option<ConnectionKey>,
    timestamp_ns: u64,
    drop_reason: u32,
    drop_location: u8,
    protocol: u8,
) -> (r: PacketDropEvent)
    ensures
        r.key == (match key {
            Option::Some(k) => k,
            Option::None => ConnectionKey { saddr: 0, daddr: 0, sport: 0, dport: 0 },
        }),
        r.timestamp_ns == timestamp_ns,
        r.drop_reason == drop_reason,
        r.drop_location == drop_location,
        r.protocol == protocol,
{
    let k = match key {
        Some(k) => k,
        None => ConnectionKey::zero(),
    };
    PacketDropEvent { key: k, timestamp_ns, drop_reason, drop_location, protocol }
}

/// The statistics table after a send-path activation, before any socket
/// validation.
pub open spec fn spec_send_entry_stats(stats: Seq<u64>) -> Seq<u64> {
    spec_bump(spec_bump(stats, STAT_TOTAL_EVENTS), STAT_SEND_EVENTS)
}

/// Send-path hook: record `now` as the measurement baseline for the
/// socket's connection.  No event is emitted.
///
/// Activation is counted before validation; an unreadable or non-IPv4
/// socket is counted invalid and skipped; a missing context argument
/// yields the generic non-fatal failure code 1.
pub fn tcp_sendmsg(state: &mut KernelState, sock: &SockArg, now: u64) -> (r: u32)
    requires
        old(state).well_formed(),
    ensures
        final(state).well_formed(),
        final(state).conn_states@ == old(state).conn_states@,
        final(state).xdp_stats@ == old(state).xdp_stats@,
        r == (match sock {
            SockArg::Missing => 1u32,
            _ => 0u32,
        }),
        match sock {
            SockArg::Readable(s) => {
                if s.skc_family == AF_INET {
                    &&& spec_start_of(final(state).connection_start@, spec_key_of_sock(*s))
                        == Some(now)
                    &&& forall|k: ConnectionKey|
                        k != spec_key_of_sock(*s) ==> spec_start_of(
                            final(state).connection_start@,
                            k,
                        ) == spec_start_of(old(state).connection_start@, k)
                    &&& final(state).stats@ == spec_send_entry_stats(old(state).stats@)
                } else {
                    &&& final(state).connection_start@ == old(state).connection_start@
                    &&& final(state).stats@ == spec_bump(
                        spec_send_entry_stats(old(state).stats@),
                        STAT_INVALID_SOCKETS,
                    )
                }
            },
            SockArg::Unreadable => {
                &&& final(state).connection_start@ == old(state).connection_start@
                &&& final(state).stats@ == spec_bump(
                    spec_send_entry_stats(old(state).stats@),
                    STAT_INVALID_SOCKETS,
                )
            },
            SockArg::Missing => {
                &&& final(state).connection_start@ == old(state).connection_start@
                &&& final(state).stats@ == spec_send_entry_stats(old(state).stats@)
            },
        },
{
    state.increment_stat(STAT_TOTAL_EVENTS);
    state.increment_stat(STAT_SEND_EVENTS);
    let s: Option<&SockCommon> = match sock {
        SockArg::Missing => {
            return 1;
        },
        SockArg::Unreadable => None,
        SockArg::Readable(sc) => Some(sc),
    };
    if !is_valid_socket(s) {
        state.increment_stat(STAT_INVALID_SOCKETS);
        return 0;
    }
    match extract_connection_key(s) {
        Ok(key) => {
            state.set_start(key, now);
            0
        },
        Err(_) => {
            state.increment_stat(STAT_INVALID_SOCKETS);
            0
        },
    }
}

/// What a receive-side hook does to the baseline table and emits, given
/// the recorded baseline for the connection.
///
/// No baseline: `now` becomes the baseline, nothing is emitted.  A
/// non-advancing clock or an out-of-window latency: nothing is emitted and
/// the baseline is kept.  Otherwise the interval since the baseline is
/// emitted and the baseline slides forward to `now`.
pub open spec fn spec_receive_outcome(
    start: Option<u64>,
    key: ConnectionKey,
    now: u64,
    pid: u32,
    event_type: u8,
) -> (Option<u64>, Option<LatencyEvent>) {
    match start {
        None => (Some(now), None),
        Some(st) => {
            if now <= st {
                (Some(st), None)
            } else if !spec_valid_latency((now - st) as u64) {
                (Some(st), None)
            } else {
                (
                    Some(now),
                    Some(
                        LatencyEvent {
                            key,
                            timestamp_ns: now,
                            latency_ns: (now - st) as u64,
                            pid,
                            event_type,
                        },
                    ),
                )
            }
        },
    }
}

/// The full transition a receive-side hook makes: how the baseline table,
/// the statistics and the emitted event relate to the prior state.
pub open spec fn spec_receive_hook(
    pre: KernelState,
    post: KernelState,
    sock: SockArg,
    now: u64,
    pid: u32,
    event_type: u8,
    probe_stat: u32,
    r: (u32, Option<LatencyEvent>),
) -> bool {
    &&& post.conn_states@ == pre.conn_states@
    &&& post.xdp_stats@ == pre.xdp_stats@
    &&& r.0 == (match sock {
        SockArg::Missing => 1u32,
        _ => 0u32,
    })
    &&& match sock {
        SockArg::Readable(s) => {
            if s.skc_family == AF_INET {
                {
                    let key = spec_key_of_sock(s);
                    let entry = spec_bump(spec_bump(pre.stats@, STAT_TOTAL_EVENTS), probe_stat);
                    let outcome = spec_receive_outcome(
                        spec_start_of(pre.connection_start@, key),
                        key,
                        now,
                        pid,
                        event_type,
                    );
                    &&& spec_start_of(post.connection_start@, key) == outcome.0
                    &&& r.1 == outcome.1
                    &&& forall|k: ConnectionKey|
                        k != key ==> spec_start_of(post.connection_start@, k) == spec_start_of(
                            pre.connection_start@,
                            k,
                        )
                    &&& post.stats@ == (
                    if (match spec_start_of(pre.connection_start@, key) {
                        Some(st) => now > st && !spec_valid_latency((now - st) as u64),
                        None => false,
                    }) {
                        spec_bump(entry, STAT_INVALID_LATENCY)
                    } else {
                        entry
                    })
                }
            } else {
                &&& post.connection_start@ == pre.connection_start@
                &&& r.1 is None
                &&& post.stats@ == spec_bump(
                    spec_bump(spec_bump(pre.stats@, STAT_TOTAL_EVENTS), probe_stat),
                    STAT_INVALID_SOCKETS,
                )
            }
        },
        SockArg::Unreadable => {
            &&& post.connection_start@ == pre.connection_start@
            &&& r.1 is None
            &&& post.stats@ == spec_bump(
                spec_bump(spec_bump(pre.stats@, STAT_TOTAL_EVENTS), probe_stat),
                STAT_INVALID_SOCKETS,
            )
        },
        SockArg::Missing => {
            &&& post.connection_start@ == pre.connection_start@
            &&& r.1 is None
            &&& post.stats@ == spec_bump(spec_bump(pre.stats@, STAT_TOTAL_EVENTS), probe_stat)
        },
    }
}

/// Shared receive-side measurement protocol of the receive and cleanup
/// hooks.
fn receive_side(
    state: &mut KernelState,
    sock: &SockArg,
    now: u64,
    pid: u32,
    event_type: u8,
    probe_stat: u32,
) -> (r: (u32, Option<LatencyEvent>))
    requires
        old(state).well_formed(),
    ensures
        final(state).well_formed(),
        r.1 is Some ==> spec_valid_latency(r.1->Some_0.latency_ns),
        spec_receive_hook(*old(state), *final(state), *sock, now, pid, event_type, probe_stat, r),
{
    state.increment_stat(STAT_TOTAL_EVENTS);
    state.increment_stat(probe_stat);
    let s: Option<&SockCommon> = match sock {
        SockArg::Missing => {
            return (1, None);
        },
        SockArg::Unreadable => None,
        SockArg::Readable(sc) => Some(sc),
    };
    if !is_valid_socket(s) {
        state.increment_stat(STAT_INVALID_SOCKETS);
        return (0, None);
    }
    let key = match extract_connection_key(s) {
        Ok(k) => k,
        Err(_) => {
            state.increment_stat(STAT_INVALID_SOCKETS);
            return (0, None);
        },
    };
    let start = match state.get_start(&key) {
        Some(st) => st,
        None => {
            // First observation for this key: record the baseline only.
            state.set_start(key, now);
            return (0, None);
        },
    };
    if now <= start {
        // The clock did not advance across CPUs: skip without storing.
        return (0, None);
    }
    let latency_ns: u64 = now - start;
    if !is_valid_latency(latency_ns) {
        state.increment_stat(STAT_INVALID_LATENCY);
        return (0, None);
    }
    let event = create_latency_event(key, now, latency_ns, pid, event_type);
    // The baseline slides forward: the next interval is measured from here.
    state.set_start(key, now);
    (0, Some(event))
}

/// Receive-path hook: emit the interval since the connection's baseline as
/// a latency sample and slide the baseline to `now`.
///
/// Every emitted event carries a latency inside the valid window; an
/// out-of-window measurement is discarded and counted instead.
pub fn tcp_recvmsg(state: &mut KernelState, sock: &SockArg, now: u64, pid_tgid: u64) -> (r: (
    u32,
    Option<LatencyEvent>,
))
    requires
        old(state).well_formed(),
    ensures
        final(state).well_formed(),
        r.1 is Some ==> spec_valid_latency(r.1->Some_0.latency_ns),
        spec_receive_hook(
            *old(state),
            *final(state),
            *sock,
            now,
            (pid_tgid >> 32) as u32,
            EVENT_TYPE_RECV,
            STAT_RECV_EVENTS,
            r,
        ),
{
    receive_side(state, sock, now, get_pid(pid_tgid), EVENT_TYPE_RECV, STAT_RECV_EVENTS)
}

/// Receive-buffer-cleanup hook: an additional receive-side measurement
/// point, with the same protocol as the receive path.
pub fn tcp_cleanup_rbuf(state: &mut KernelState, sock: &SockArg, now: u64, pid_tgid: u64) -> (r: (
    u32,
    Option<LatencyEvent>,
))
    requires
        old(state).well_formed(),
    ensures
        final(state).well_formed(),
        r.1 is Some ==> spec_valid_latency(r.1->Some_0.latency_ns),
        spec_receive_hook(
            *old(state),
            *final(state),
            *sock,
            now,
            (pid_tgid >> 32) as u32,
            EVENT_TYPE_CLEANUP,
            STAT_CLEANUP_EVENTS,
            r,
        ),
{
    receive_side(state, sock, now, get_pid(pid_tgid), EVENT_TYPE_CLEANUP, STAT_CLEANUP_EVENTS)
}

} // verus!
