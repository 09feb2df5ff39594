//! XDP packet path: the earliest possible interception point.
//!
//! One frame is parsed at a time: Ethernet header, then IPv4 header, then,
//! for TCP, the transport ports.  Every header read verifies that it lies
//! inside the frame first; a failed bounds check aborts processing of that
//! packet only.  The path is observation-only: every non-aborted packet is
//! passed through untouched.

use vstd::prelude::*;
use crate::types::{ConnectionKey, XdpConnStats, IPPROTO_TCP, IPPROTO_UDP, IPPROTO_ICMP};
use crate::kernel::{
    KernelState, XdpEntry, xdp_keys_unique, spec_has_xdp, spec_xdp_index, spec_xdp_of, spec_bump,
    spec_wrap_inc, STAT_XDP_TCP_PACKETS, STAT_XDP_UDP_PACKETS, STAT_XDP_ICMP_PACKETS,
    STAT_XDP_OTHER_PACKETS,
};

verus! {

/// Offset of the Ethernet payload: the IPv4 header starts here.
pub const ETH_HEADER_LEN: usize = 14;

/// Minimum length of an IPv4 header.
pub const IPV4_MIN_HEADER_LEN: usize = 20;

/// Minimum length of a TCP header.
pub const TCP_MIN_HEADER_LEN: usize = 20;

/// What the path decides for one frame.
#[derive(Clone, Copy, Debug, PartialEq, Eq, Structural)]
pub enum XdpAction {
    /// A bounds check failed: processing of this packet is aborted.
    Aborted,
    /// The packet is passed through untouched.
    Pass,
}

/// The frame's ethertype marks it as IPv4 (0x0800, big-endian on the wire).
pub open spec fn spec_eth_is_ipv4(frame: Seq<u8>) -> bool
    recommends
        frame.len() >= 14,
{
    frame[12] == 0x08 && frame[13] == 0x00
}

/// A 16-bit field read from the wire, kept in network byte order.
pub open spec fn spec_net16(b0: u8, b1: u8) -> u16 {
    (b0 + 256 * b1) as u16
}

/// A 32-bit field read from the wire, kept in network byte order.
pub open spec fn spec_net32(b0: u8, b1: u8, b2: u8, b3: u8) -> u32 {
    (b0 + 0x100 * b1 + 0x10000 * b2 + 0x1000000 * b3) as u32
}

/// The IPv4 header length in bytes: four times the low nibble of the first
/// header byte.
pub open spec fn spec_ip_header_len(frame: Seq<u8>) -> int
    recommends
        frame.len() >= 15,
{
    4 * ((frame[14] & 0x0f) as int)
}

/// The IPv4 protocol field.
pub open spec fn spec_ip_protocol(frame: Seq<u8>) -> u8
    recommends
        frame.len() >= 24,
{
    frame[23]
}

/// The statistics slot counting packets of protocol `p`.
pub open spec fn spec_xdp_proto_stat(p: u8) -> u32 {
    if p == IPPROTO_TCP {
        STAT_XDP_TCP_PACKETS
    } else if p == IPPROTO_UDP {
        STAT_XDP_UDP_PACKETS
    } else if p == IPPROTO_ICMP {
        STAT_XDP_ICMP_PACKETS
    } else {
        STAT_XDP_OTHER_PACKETS
    }
}

/// The connection key of a TCP frame: addresses from the IPv4 header,
/// ports from the TCP header after it, all kept in network byte order.
pub open spec fn spec_xdp_key(frame: Seq<u8>) -> ConnectionKey {
    let t = 14 + spec_ip_header_len(frame);
    ConnectionKey {
        saddr: spec_net32(frame[26], frame[27], frame[28], frame[29]),
        daddr: spec_net32(frame[30], frame[31], frame[32], frame[33]),
        sport: spec_net16(frame[t], frame[t + 1]),
        dport: spec_net16(frame[t + 2], frame[t + 3]),
    }
}

/// The counters owed for a connection after one frame of `frame_len`
/// bytes at time `now`: purely additive, wrapping as kernel counters do.
pub open spec fn spec_xdp_update(prior: Option<XdpConnStats>, frame_len: u64, now: u64)
    -> XdpConnStats {
    match prior {
        Some(x) => XdpConnStats {
            packet_count: spec_wrap_inc(x.packet_count),
            byte_count: vstd::wrapping::u64_specs::wrapping_add(x.byte_count, frame_len),
            last_seen_ns: now,
            drop_count: x.drop_count,
        },
        None => XdpConnStats {
            packet_count: 1,
            byte_count: frame_len,
            last_seen_ns: now,
            drop_count: 0,
        },
    }
}

/// Replacing a counter entry by one with the same key changes only that
/// key's counters.
proof fn lemma_xdp_update(c: Seq<XdpEntry>, i: int, e: XdpEntry)
    requires
        xdp_keys_unique(c),
        0 <= i < c.len(),
        e.key == c[i].key,
    ensures
        xdp_keys_unique(c.update(i, e)),
        spec_has_xdp(c, e.key),
        spec_xdp_of(c, e.key) == Some(c[i].stats),
        spec_has_xdp(c.update(i, e), e.key),
        spec_xdp_of(c.update(i, e), e.key) == Some(e.stats),
        forall|k: ConnectionKey| k != e.key ==> spec_xdp_of(c.update(i, e), k) == spec_xdp_of(c, k),
{
    let f = c.update(i, e);
    assert(f[i].key == e.key);
    let j = spec_xdp_index(c, e.key);
    assert(0 <= j < c.len() && c[j].key == e.key);
    assert(j == i);
    let j2 = spec_xdp_index(f, e.key);
    assert(0 <= j2 < f.len() && f[j2].key == e.key);
    assert(j2 == i);
    assert forall|k: ConnectionKey| k != e.key implies spec_xdp_of(f, k) == spec_xdp_of(c, k) by {
        if spec_has_xdp(c, k) {
            let a = spec_xdp_index(c, k);
            assert(0 <= a < c.len() && c[a].key == k);
            assert(a != i);
            assert(f[a].key == k);
            assert(spec_has_xdp(f, k));
            let b = spec_xdp_index(f, k);
            assert(0 <= b < f.len() && f[b].key == k);
            assert(b != i);
            assert(c[b].key == k);
            assert(b == a);
        } else {
            if spec_has_xdp(f, k) {
                let b = spec_xdp_index(f, k);
                assert(0 <= b < f.len() && f[b].key == k);
                assert(b != i);
                assert(c[b].key == k);
                assert(false);
            }
        }
    }
}

/// Appending a counter entry with an unseen key changes only that key's
/// counters.
proof fn lemma_xdp_push(c: Seq<XdpEntry>, e: XdpEntry)
    requires
        xdp_keys_unique(c),
        forall|i: int| 0 <= i < c.len() ==> (#[trigger] c[i]).key != e.key,
    ensures
        xdp_keys_unique(c.push(e)),
        !spec_has_xdp(c, e.key),
        spec_xdp_of(c, e.key) is None,
        spec_has_xdp(c.push(e), e.key),
        spec_xdp_of(c.push(e), e.key) == Some(e.stats),
        forall|k: ConnectionKey| k != e.key ==> spec_xdp_of(c.push(e), k) == spec_xdp_of(c, k),
{
    let f = c.push(e);
    let n = c.len() as int;
    assert(f[n].key == e.key);
    assert(spec_has_xdp(f, e.key));
    assert forall|i: int, j: int| 0 <= i < j < f.len() implies (#[trigger] f[i]).key != (
    #[trigger] f[j]).key by {
        if j < n {
            assert(f[i] == c[i] && f[j] == c[j]);
        } else {
            assert(f[i] == c[i] && f[j] == e);
        }
    }
    let j2 = spec_xdp_index(f, e.key);
    assert(0 <= j2 < f.len() && f[j2].key == e.key);
    assert(j2 == n);
    assert forall|k: ConnectionKey| k != e.key implies spec_xdp_of(f, k) == spec_xdp_of(c, k) by {
        if spec_has_xdp(c, k) {
            let a = spec_xdp_index(c, k);
            assert(0 <= a < c.len() && c[a].key == k);
            assert(f[a].key == k);
            assert(spec_has_xdp(f, k));
            let b = spec_xdp_index(f, k);
            assert(0 <= b < f.len() && f[b].key == k);
            assert(b != n);
            assert(c[b].key == k);
            assert(b == a);
        } else {
            if spec_has_xdp(f, k) {
                let b = spec_xdp_index(f, k);
                assert(0 <= b < f.len() && f[b].key == k);
                assert(b != n);
                assert(c[b].key == k);
                assert(false);
            }
        }
    }
}

/// Find the counter entry carrying `key`.
fn find_xdp(cs: &Vec<XdpEntry>, key: &ConnectionKey) -> (r: Option<usize>)
    ensures
        match r {
            Option::Some(i) => 0 <= i < cs@.len() && cs@[i as int].key == *key,
            Option::None => forall|i: int| 0 <= i < cs@.len() ==> (#[trigger] cs@[i]).key != *key,
        },
{
    let mut i: usize = 0;
    while i < cs.len()
        invariant
            i <= cs@.len(),
            forall|j: int| 0 <= j < i ==> (#[trigger] cs@[j]).key != *key,
        decreases cs@.len() - i,
    {
        if cs[i].key == *key {
            return Some(i);
        }
        i = i + 1;
    }
    None
}

impl KernelState {
    /// Count one frame of `frame_len` bytes against `key`'s counters,
    /// creating the record on first sight.
    fn bump_xdp_stats(&mut self, key: ConnectionKey, frame_len: u64, now: u64)
        requires
            old(self).well_formed(),
        ensures
            final(self).well_formed(),
            spec_xdp_of(final(self).xdp_stats@, key) == Some(
                spec_xdp_update(spec_xdp_of(old(self).xdp_stats@, key), frame_len, now),
            ),
            forall|k: ConnectionKey|
                k != key ==> spec_xdp_of(final(self).xdp_stats@, k) == spec_xdp_of(
                    old(self).xdp_stats@,
                    k,
                ),
            final(self).connection_start@ == old(self).connection_start@,
            final(self).conn_states@ == old(self).conn_states@,
            final(self).stats@ == old(self).stats@,
    {
        match find_xdp(&self.xdp_stats, &key) {
            Some(i) => {
                let ghost c = self.xdp_stats@;
                let prior = self.xdp_stats.remove(i);
                let pc: u64 = if prior.stats.packet_count == u64::MAX {
                    0
                } else {
                    prior.stats.packet_count + 1
                };
                let entry = XdpEntry {
                    key,
                    stats: XdpConnStats {
                        packet_count: pc,
                        byte_count: prior.stats.byte_count.wrapping_add(frame_len),
                        last_seen_ns: now,
                        drop_count: prior.stats.drop_count,
                    },
                };
                self.xdp_stats.insert(i, entry);
                proof {
                    c.remove_ensures(i as int);
                    c.remove(i as int).insert_ensures(i as int, entry);
                    assert(self.xdp_stats@ =~= c.update(i as int, entry));
                    lemma_xdp_update(c, i as int, entry);
                }
            },
            None => {
                let entry = XdpEntry {
                    key,
                    stats: XdpConnStats {
                        packet_count: 1,
                        byte_count: frame_len,
                        last_seen_ns: now,
                        drop_count: 0,
                    },
                };
                let ghost c = self.xdp_stats@;
                self.xdp_stats.push(entry);
                proof {
                    lemma_xdp_push(c, entry);
                }
            },
        }
    }
}

/// Process one frame at the earliest interception point.
///
/// A non-IPv4 frame passes through untouched.  An IPv4 frame is classified
/// by protocol, counting one packet in the matching statistics slot; a TCP
/// frame additionally updates its connection's packet counters.  Any header
/// read past the end of the frame aborts this packet only.
pub fn xdp_process_packet(state: &mut KernelState, frame: &[u8], now: u64) -> (r: XdpAction)
    requires
        old(state).well_formed(),
    ensures
        final(state).well_formed(),
        final(state).connection_start@ == old(state).connection_start@,
        final(state).conn_states@ == old(state).conn_states@,
        if frame@.len() < 14 {
            &&& r == XdpAction::Aborted
            &&& final(state).stats@ == old(state).stats@
            &&& final(state).xdp_stats@ == old(state).xdp_stats@
        } else if !spec_eth_is_ipv4(frame@) {
            &&& r == XdpAction::Pass
            &&& final(state).stats@ == old(state).stats@
            &&& final(state).xdp_stats@ == old(state).xdp_stats@
        } else if frame@.len() < 34 || (frame@[14] & 0x0f) < 5 || 14 + spec_ip_header_len(frame@)
            > frame@.len() {
            &&& r == XdpAction::Aborted
            &&& final(state).stats@ == old(state).stats@
            &&& final(state).xdp_stats@ == old(state).xdp_stats@
        } else if spec_ip_protocol(frame@) != IPPROTO_TCP {
            &&& r == XdpAction::Pass
            &&& final(state).stats@ == spec_bump(
                old(state).stats@,
                spec_xdp_proto_stat(spec_ip_protocol(frame@)),
            )
            &&& final(state).xdp_stats@ == old(state).xdp_stats@
        } else if 14 + spec_ip_header_len(frame@) + 20 > frame@.len() {
            &&& r == XdpAction::Aborted
            &&& final(state).stats@ == spec_bump(old(state).stats@, STAT_XDP_TCP_PACKETS)
            &&& final(state).xdp_stats@ == old(state).xdp_stats@
        } else {
            &&& r == XdpAction::Pass
            &&& final(state).stats@ == spec_bump(old(state).stats@, STAT_XDP_TCP_PACKETS)
            &&& spec_xdp_of(final(state).xdp_stats@, spec_xdp_key(frame@)) == Some(
                spec_xdp_update(
                    spec_xdp_of(old(state).xdp_stats@, spec_xdp_key(frame@)),
                    frame@.len() as u64,
                    now,
                ),
            )
            &&& forall|k: ConnectionKey|
                k != spec_xdp_key(frame@) ==> spec_xdp_of(final(state).xdp_stats@, k)
                    == spec_xdp_of(old(state).xdp_stats@, k)
        },
{
    let len = frame.len();
    if len < ETH_HEADER_LEN {
        return XdpAction::Aborted;
    }
    let b12 = *vstd::slice::slice_index_get(frame, 12);
    let b13 = *vstd::slice::slice_index_get(frame, 13);
    if !(b12 == 0x08 && b13 == 0x00) {
        // Not IPv4: pass the packet through untouched.
        return XdpAction::Pass;
    }
    if len < ETH_HEADER_LEN + IPV4_MIN_HEADER_LEN {
        return XdpAction::Aborted;
    }
    let ihl: u8 = *vstd::slice::slice_index_get(frame, 14) & 0x0f;
    if ihl < 5 {
        return XdpAction::Aborted;
    }
    let ip_header_len: usize = 4 * (ihl as usize);
    if ETH_HEADER_LEN + ip_header_len > len {
        return XdpAction::Aborted;
    }
    let protocol: u8 = *vstd::slice::slice_index_get(frame, 23);
    if protocol == IPPROTO_TCP {
        state.increment_stat(STAT_XDP_TCP_PACKETS);
    } else if protocol == IPPROTO_UDP {
        state.increment_stat(STAT_XDP_UDP_PACKETS);
        return XdpAction::Pass;
    } else if protocol == IPPROTO_ICMP {
        state.increment_stat(STAT_XDP_ICMP_PACKETS);
        return XdpAction::Pass;
    } else {
        state.increment_stat(STAT_XDP_OTHER_PACKETS);
        return XdpAction::Pass;
    }
    let tcp_off: usize = ETH_HEADER_LEN + ip_header_len;
    if tcp_off + TCP_MIN_HEADER_LEN > len {
        return XdpAction::Aborted;
    }
    let saddr = net32(
        *vstd::slice::slice_index_get(frame, 26),
        *vstd::slice::slice_index_get(frame, 27),
        *vstd::slice::slice_index_get(frame, 28),
        *vstd::slice::slice_index_get(frame, 29),
    );
    let daddr = net32(
        *vstd::slice::slice_index_get(frame, 30),
        *vstd::slice::slice_index_get(frame, 31),
        *vstd::slice::slice_index_get(frame, 32),
        *vstd::slice::slice_index_get(frame, 33),
    );
    let sport = net16(
        *vstd::slice::slice_index_get(frame, tcp_off),
        *vstd::slice::slice_index_get(frame, tcp_off + 1),
    );
    let dport = net16(
        *vstd::slice::slice_index_get(frame, tcp_off + 2),
        *vstd::slice::slice_index_get(frame, tcp_off + 3),
    );
    let key = ConnectionKey { saddr, daddr, sport, dport };
    state.bump_xdp_stats(key, len as u64, now);
    XdpAction::Pass
}

/// Assemble a 16-bit wire field, keeping network byte order.
fn net16(b0: u8, b1: u8) -> (r: u16)
    ensures
        r == spec_net16(b0, b1),
{
    (b0 as u16) + 256 * (b1 as u16)
}

/// Assemble a 32-bit wire field, keeping network byte order.
fn net32(b0: u8, b1: u8, b2: u8, b3: u8) -> (r: u32)
    ensures
        r == spec_net32(b0, b1, b2, b3),
{
    (b0 as u32) + 0x100 * (b1 as u32) + 0x10000 * (b2 as u32) + 0x1000000 * (b3 as u32)
}

} // verus!
