//! Explicit binary wire form of the kernel/userspace event records.
//!
//! The producer emits each record with a fixed field order, fixed widths and
//! explicit alignment padding; multi-byte fields are little-endian, while
//! addresses and ports already carry network-byte-order values inside their
//! integers.  Layout compatibility with the producer is a correctness
//! precondition, so the offsets below are part of the contract.

use vstd::prelude::*;
use vstd::bytes::*;
use crate::types::{ConnectionKey, LatencyEvent, PacketDropEvent, ConnectionState};

verus! {

/// Wire size of a connection key.
pub const KEY_WIRE_SIZE: usize = 12;

/// Wire size of a latency event record.
pub const LATENCY_EVENT_WIRE_SIZE: usize = 40;

/// Wire size of a packet drop record.
pub const PACKET_DROP_WIRE_SIZE: usize = 32;

/// Wire size of a connection lifecycle record.
pub const CONNECTION_STATE_WIRE_SIZE: usize = 64;

/// Wire form of a connection key: saddr, daddr, sport, dport, packed.
pub open spec fn spec_encode_key(k: ConnectionKey) -> Seq<u8> {
    spec_u32_to_le_bytes(k.saddr) + spec_u32_to_le_bytes(k.daddr)
        + spec_u16_to_le_bytes(k.sport) + spec_u16_to_le_bytes(k.dport)
}

/// Key read back from its 12 wire bytes.
pub open spec fn spec_decode_key(s: Seq<u8>) -> ConnectionKey
    recommends
        s.len() == KEY_WIRE_SIZE,
{
    ConnectionKey {
        saddr: spec_u32_from_le_bytes(s.subrange(0, 4)),
        daddr: spec_u32_from_le_bytes(s.subrange(4, 8)),
        sport: spec_u16_from_le_bytes(s.subrange(8, 10)),
        dport: spec_u16_from_le_bytes(s.subrange(10, 12)),
    }
}

/// Four alignment padding bytes.
pub open spec fn spec_pad4() -> Seq<u8> {
    seq![0u8, 0u8, 0u8, 0u8]
}

/// Wire form of a latency event: key at 0, timestamp at 16, latency at 24,
/// pid at 32, event type at 36, padded to 40 bytes.
pub open spec fn spec_encode_latency_event(e: LatencyEvent) -> Seq<u8> {
    spec_encode_key(e.key) + spec_pad4() + spec_u64_to_le_bytes(e.timestamp_ns)
        + spec_u64_to_le_bytes(e.latency_ns) + spec_u32_to_le_bytes(e.pid)
        + seq![e.event_type, 0u8, 0u8, 0u8]
}

/// Latency event read back from 40 wire bytes; padding bytes are ignored.
pub open spec fn spec_decode_latency_event(s: Seq<u8>) -> Option<LatencyEvent> {
    if s.len() == LATENCY_EVENT_WIRE_SIZE {
        Some(LatencyEvent {
            key: spec_decode_key(s.subrange(0, 12)),
            timestamp_ns: spec_u64_from_le_bytes(s.subrange(16, 24)),
            latency_ns: spec_u64_from_le_bytes(s.subrange(24, 32)),
            pid: spec_u32_from_le_bytes(s.subrange(32, 36)),
            event_type: s[36],
        })
    } else {
        None
    }
}

/// Wire form of a packet drop record: key at 0, timestamp at 16, reason at
/// 24, location at 28, protocol at 29, padded to 32 bytes.
pub open spec fn spec_encode_packet_drop(e: PacketDropEvent) -> Seq<u8> {
    spec_encode_key(e.key) + spec_pad4() + spec_u64_to_le_bytes(e.timestamp_ns)
        + spec_u32_to_le_bytes(e.drop_reason) + seq![e.drop_location, e.protocol, 0u8, 0u8]
}

/// Packet drop record read back from 32 wire bytes.
pub open spec fn spec_decode_packet_drop(s: Seq<u8>) -> Option<PacketDropEvent> {
    if s.len() == PACKET_DROP_WIRE_SIZE {
        Some(PacketDropEvent {
            key: spec_decode_key(s.subrange(0, 12)),
            timestamp_ns: spec_u64_from_le_bytes(s.subrange(16, 24)),
            drop_reason: spec_u32_from_le_bytes(s.subrange(24, 28)),
            drop_location: s[28],
            protocol: s[29],
        })
    } else {
        None
    }
}

/// Wire form of a lifecycle record: key at 0, start at 16, close at 24,
/// state at 32, bytes sent at 40, bytes received at 48, pid at 56, padded to
/// 64 bytes.
pub open spec fn spec_encode_connection_state(e: ConnectionState) -> Seq<u8> {
    spec_encode_key(e.key) + spec_pad4() + spec_u64_to_le_bytes(e.start_time_ns)
        + spec_u64_to_le_bytes(e.close_time_ns)
        + seq![e.state, 0u8, 0u8, 0u8, 0u8, 0u8, 0u8, 0u8]
        + spec_u64_to_le_bytes(e.bytes_sent) + spec_u64_to_le_bytes(e.bytes_received)
        + spec_u32_to_le_bytes(e.pid) + spec_pad4()
}

/// Lifecycle record read back from 64 wire bytes.
pub open spec fn spec_decode_connection_state(s: Seq<u8>) -> Option<ConnectionState> {
    if s.len() == CONNECTION_STATE_WIRE_SIZE {
        Some(ConnectionState {
            key: spec_decode_key(s.subrange(0, 12)),
            start_time_ns: spec_u64_from_le_bytes(s.subrange(16, 24)),
            close_time_ns: spec_u64_from_le_bytes(s.subrange(24, 32)),
            state: s[32],
            bytes_sent: spec_u64_from_le_bytes(s.subrange(40, 48)),
            bytes_received: spec_u64_from_le_bytes(s.subrange(48, 56)),
            pid: spec_u32_from_le_bytes(s.subrange(56, 60)),
        })
    } else {
        None
    }
}

/// Encode a connection key into its 12 wire bytes.
pub fn encode_connection_key(k: &ConnectionKey) -> (r: Vec<u8>)
    ensures
        r@ == spec_encode_key(*k),
        r@.len() == KEY_WIRE_SIZE,
{
    let mut v = u32_to_le_bytes(k.saddr);
    let mut b = u32_to_le_bytes(k.daddr);
    v.append(&mut b);
    let mut b = u16_to_le_bytes(k.sport);
    v.append(&mut b);
    let mut b = u16_to_le_bytes(k.dport);
    v.append(&mut b);
    proof {
        assert(v@ =~= spec_encode_key(*k));
    }
    v
}

/// Decode a connection key from exactly 12 wire bytes.
pub fn decode_connection_key(s: &[u8]) -> (r: ConnectionKey)
    requires
        s@.len() == KEY_WIRE_SIZE,
    ensures
        r == spec_decode_key(s@),
{
    ConnectionKey {
        saddr: u32_from_le_bytes(vstd::slice::slice_subrange(s, 0, 4)),
        daddr: u32_from_le_bytes(vstd::slice::slice_subrange(s, 4, 8)),
        sport: u16_from_le_bytes(vstd::slice::slice_subrange(s, 8, 10)),
        dport: u16_from_le_bytes(vstd::slice::slice_subrange(s, 10, 12)),
    }
}

/// Encode a latency event into its 40 wire bytes.
pub fn encode_latency_event(e: &LatencyEvent) -> (r: Vec<u8>)
    ensures
        r@ == spec_encode_latency_event(*e),
        r@.len() == LATENCY_EVENT_WIRE_SIZE,
{
    let mut v = encode_connection_key(&e.key);
    v.push(0u8);
    v.push(0u8);
    v.push(0u8);
    v.push(0u8);
    let mut b = u64_to_le_bytes(e.timestamp_ns);
    v.append(&mut b);
    let mut b = u64_to_le_bytes(e.latency_ns);
    v.append(&mut b);
    let mut b = u32_to_le_bytes(e.pid);
    v.append(&mut b);
    v.push(e.event_type);
    v.push(0u8);
    v.push(0u8);
    v.push(0u8);
    proof {
        assert(v@ =~= spec_encode_latency_event(*e));
    }
    v
}

/// Decode a latency event from a wire buffer; `None` unless the buffer is
/// exactly one record long.
pub fn decode_latency_event(s: &[u8]) -> (r: Option<LatencyEvent>)
    ensures
        r == spec_decode_latency_event(s@),
{
    if s.len() != LATENCY_EVENT_WIRE_SIZE {
        return None;
    }
    let e = LatencyEvent {
        key: decode_connection_key(vstd::slice::slice_subrange(s, 0, 12)),
        timestamp_ns: u64_from_le_bytes(vstd::slice::slice_subrange(s, 16, 24)),
        latency_ns: u64_from_le_bytes(vstd::slice::slice_subrange(s, 24, 32)),
        pid: u32_from_le_bytes(vstd::slice::slice_subrange(s, 32, 36)),
        event_type: *vstd::slice::slice_index_get(s, 36),
    };
    Some(e)
}

/// Encode a packet drop record into its 32 wire bytes.
pub fn encode_packet_drop(e: &PacketDropEvent) -> (r: Vec<u8>)
    ensures
        r@ == spec_encode_packet_drop(*e),
        r@.len() == PACKET_DROP_WIRE_SIZE,
{
    let mut v = encode_connection_key(&e.key);
    v.push(0u8);
    v.push(0u8);
    v.push(0u8);
    v.push(0u8);
    let mut b = u64_to_le_bytes(e.timestamp_ns);
    v.append(&mut b);
    let mut b = u32_to_le_bytes(e.drop_reason);
    v.append(&mut b);
    v.push(e.drop_location);
    v.push(e.protocol);
    v.push(0u8);
    v.push(0u8);
    proof {
        assert(v@ =~= spec_encode_packet_drop(*e));
    }
    v
}

/// Decode a packet drop record from a wire buffer.
pub fn decode_packet_drop(s: &[u8]) -> (r: Option<PacketDropEvent>)
    ensures
        r == spec_decode_packet_drop(s@),
{
    if s.len() != PACKET_DROP_WIRE_SIZE {
        return None;
    }
    let e = PacketDropEvent {
        key: decode_connection_key(vstd::slice::slice_subrange(s, 0, 12)),
        timestamp_ns: u64_from_le_bytes(vstd::slice::slice_subrange(s, 16, 24)),
        drop_reason: u32_from_le_bytes(vstd::slice::slice_subrange(s, 24, 28)),
        drop_location: *vstd::slice::slice_index_get(s, 28),
        protocol: *vstd::slice::slice_index_get(s, 29),
    };
    Some(e)
}

/// Encode a lifecycle record into its 64 wire bytes.
pub fn encode_connection_state(e: &ConnectionState) -> (r: Vec<u8>)
    ensures
        r@ == spec_encode_connection_state(*e),
        r@.len() == CONNECTION_STATE_WIRE_SIZE,
{
    let mut v = encode_connection_key(&e.key);
    v.push(0u8);
    v.push(0u8);
    v.push(0u8);
    v.push(0u8);
    let mut b = u64_to_le_bytes(e.start_time_ns);
    v.append(&mut b);
    let mut b = u64_to_le_bytes(e.close_time_ns);
    v.append(&mut b);
    v.push(e.state);
    let mut i: usize = 0;
    while i < 7
        invariant
            i <= 7,
            v@ == spec_encode_key(e.key) + spec_pad4() + spec_u64_to_le_bytes(e.start_time_ns)
                + spec_u64_to_le_bytes(e.close_time_ns) + seq![e.state]
                + Seq::<u8>::new(i as nat, |j: int| 0u8),
        decreases 7 - i,
    {
        v.push(0u8);
        proof {
            assert(Seq::<u8>::new((i + 1) as nat, |j: int| 0u8)
                =~= Seq::<u8>::new(i as nat, |j: int| 0u8).push(0u8));
        }
        i = i + 1;
    }
    let mut b = u64_to_le_bytes(e.bytes_sent);
    v.append(&mut b);
    let mut b = u64_to_le_bytes(e.bytes_received);
    v.append(&mut b);
    let mut b = u32_to_le_bytes(e.pid);
    v.append(&mut b);
    v.push(0u8);
    v.push(0u8);
    v.push(0u8);
    v.push(0u8);
    proof {
        assert(Seq::<u8>::new(7nat, |j: int| 0u8)
            =~= seq![0u8, 0u8, 0u8, 0u8, 0u8, 0u8, 0u8]);
        assert(v@ =~= spec_encode_connection_state(*e));
    }
    v
}

/// Decode a lifecycle record from a wire buffer.
pub fn decode_connection_state(s: &[u8]) -> (r: Option<ConnectionState>)
    ensures
        r == spec_decode_connection_state(s@),
{
    if s.len() != CONNECTION_STATE_WIRE_SIZE {
        return None;
    }
    let e = ConnectionState {
        key: decode_connection_key(vstd::slice::slice_subrange(s, 0, 12)),
        start_time_ns: u64_from_le_bytes(vstd::slice::slice_subrange(s, 16, 24)),
        close_time_ns: u64_from_le_bytes(vstd::slice::slice_subrange(s, 24, 32)),
        state: *vstd::slice::slice_index_get(s, 32),
        bytes_sent: u64_from_le_bytes(vstd::slice::slice_subrange(s, 40, 48)),
        bytes_received: u64_from_le_bytes(vstd::slice::slice_subrange(s, 48, 56)),
        pid: u32_from_le_bytes(vstd::slice::slice_subrange(s, 56, 60)),
    };
    Some(e)
}

/// A key survives the trip onto the wire and back.
pub proof fn lemma_key_round_trip(k: ConnectionKey)
    ensures
        spec_decode_key(spec_encode_key(k)) == k,
{
    lemma_auto_spec_u32_to_from_le_bytes();
    lemma_auto_spec_u16_to_from_le_bytes();
    let s = spec_encode_key(k);
    assert(s.subrange(0, 4) =~= spec_u32_to_le_bytes(k.saddr));
    assert(s.subrange(4, 8) =~= spec_u32_to_le_bytes(k.daddr));
    assert(s.subrange(8, 10) =~= spec_u16_to_le_bytes(k.sport));
    assert(s.subrange(10, 12) =~= spec_u16_to_le_bytes(k.dport));
}

/// Round trip: encoding a latency event and decoding the bytes yields the
/// identical record, for every field value.
pub proof fn lemma_latency_event_round_trip(e: LatencyEvent)
    ensures
        spec_decode_latency_event(spec_encode_latency_event(e)) == Some(e),
{
    lemma_auto_spec_u64_to_from_le_bytes();
    lemma_auto_spec_u32_to_from_le_bytes();
    lemma_auto_spec_u16_to_from_le_bytes();
    lemma_key_round_trip(e.key);
    let s = spec_encode_latency_event(e);
    assert(s.subrange(0, 12) =~= spec_encode_key(e.key));
    assert(s.subrange(16, 24) =~= spec_u64_to_le_bytes(e.timestamp_ns));
    assert(s.subrange(24, 32) =~= spec_u64_to_le_bytes(e.latency_ns));
    assert(s.subrange(32, 36) =~= spec_u32_to_le_bytes(e.pid));
    assert(s[36] == e.event_type);
}

/// Round trip for packet drop records.
pub proof fn lemma_packet_drop_round_trip(e: PacketDropEvent)
    ensures
        spec_decode_packet_drop(spec_encode_packet_drop(e)) == Some(e),
{
    lemma_auto_spec_u64_to_from_le_bytes();
    lemma_auto_spec_u32_to_from_le_bytes();
    lemma_auto_spec_u16_to_from_le_bytes();
    lemma_key_round_trip(e.key);
    let s = spec_encode_packet_drop(e);
    assert(s.subrange(0, 12) =~= spec_encode_key(e.key));
    assert(s.subrange(16, 24) =~= spec_u64_to_le_bytes(e.timestamp_ns));
    assert(s.subrange(24, 28) =~= spec_u32_to_le_bytes(e.drop_reason));
    assert(s[28] == e.drop_location);
    assert(s[29] == e.protocol);
}

/// Round trip for lifecycle records.
pub proof fn lemma_connection_state_round_trip(e: ConnectionState)
    ensures
        spec_decode_connection_state(spec_encode_connection_state(e)) == Some(e),
{
    lemma_auto_spec_u64_to_from_le_bytes();
    lemma_auto_spec_u32_to_from_le_bytes();
    lemma_auto_spec_u16_to_from_le_bytes();
    lemma_key_round_trip(e.key);
    let s = spec_encode_connection_state(e);
    assert(s.subrange(0, 12) =~= spec_encode_key(e.key));
    assert(s.subrange(16, 24) =~= spec_u64_to_le_bytes(e.start_time_ns));
    assert(s.subrange(24, 32) =~= spec_u64_to_le_bytes(e.close_time_ns));
    assert(s[32] == e.state);
    assert(s.subrange(40, 48) =~= spec_u64_to_le_bytes(e.bytes_sent));
    assert(s.subrange(48, 56) =~= spec_u64_to_le_bytes(e.bytes_received));
    assert(s.subrange(56, 60) =~= spec_u32_to_le_bytes(e.pid));
}

} // verus!
