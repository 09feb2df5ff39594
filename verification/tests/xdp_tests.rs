//! Tests for the XDP packet path: bounds-checked header parsing and
//! per-connection packet accounting.

use latency_probe::kernel::{
    KernelState, STAT_XDP_ICMP_PACKETS, STAT_XDP_OTHER_PACKETS, STAT_XDP_TCP_PACKETS,
    STAT_XDP_UDP_PACKETS,
};
use latency_probe::types::{IPPROTO_ICMP, IPPROTO_TCP, IPPROTO_UDP};
use latency_probe::xdp::{xdp_process_packet, XdpAction};

/// Build an Ethernet/IPv4 frame with the given protocol and, for TCP, the
/// given ports; addresses are fixed.
fn ipv4_frame(protocol: u8, payload_len: usize) -> Vec<u8> {
    let mut frame = vec![0u8; 14];
    frame[12] = 0x08; // ethertype IPv4, big-endian on the wire
    frame[13] = 0x00;
    let mut ip = vec![0u8; 20];
    ip[0] = 0x45; // version 4, header length 5 * 4
    ip[9] = protocol;
    ip[12..16].copy_from_slice(&[10, 0, 0, 1]); // source address
    ip[16..20].copy_from_slice(&[10, 0, 0, 2]); // destination address
    frame.extend_from_slice(&ip);
    frame.extend_from_slice(&vec![0u8; payload_len]);
    frame
}

fn tcp_frame() -> Vec<u8> {
    let mut frame = ipv4_frame(IPPROTO_TCP, 20);
    frame[34] = 0x12; // source port bytes on the wire
    frame[35] = 0x34;
    frame[36] = 0x56; // destination port bytes on the wire
    frame[37] = 0x78;
    frame
}

fn stat(state: &KernelState, id: u32) -> u64 {
    state.stats[id as usize]
}

#[test]
fn non_ipv4_frames_pass_untouched() {
    let mut state = KernelState::new();
    let mut frame = vec![0u8; 60];
    frame[12] = 0x86; // ethertype IPv6
    frame[13] = 0xdd;
    assert_eq!(xdp_process_packet(&mut state, &frame, 1), XdpAction::Pass);
    assert_eq!(stat(&state, STAT_XDP_TCP_PACKETS), 0);
    assert_eq!(stat(&state, STAT_XDP_OTHER_PACKETS), 0);
    assert_eq!(state.xdp_stats.len(), 0);
}

#[test]
fn truncated_frames_abort() {
    let mut state = KernelState::new();
    // Too short for an Ethernet header.
    assert_eq!(xdp_process_packet(&mut state, &[0u8; 10], 1), XdpAction::Aborted);
    // IPv4 ethertype but no room for the IP header.
    let mut short = vec![0u8; 20];
    short[12] = 0x08;
    short[13] = 0x00;
    assert_eq!(xdp_process_packet(&mut state, &short, 1), XdpAction::Aborted);
    // TCP frame cut off before the transport header ends.
    let frame = tcp_frame();
    assert_eq!(xdp_process_packet(&mut state, &frame[..40], 1), XdpAction::Aborted);
    // The TCP protocol counter still saw the classification.
    assert_eq!(stat(&state, STAT_XDP_TCP_PACKETS), 1);
    assert_eq!(state.xdp_stats.len(), 0);
}

#[test]
fn protocols_are_classified() {
    let mut state = KernelState::new();
    assert_eq!(xdp_process_packet(&mut state, &ipv4_frame(IPPROTO_UDP, 8), 1), XdpAction::Pass);
    assert_eq!(xdp_process_packet(&mut state, &ipv4_frame(IPPROTO_ICMP, 8), 1), XdpAction::Pass);
    assert_eq!(xdp_process_packet(&mut state, &ipv4_frame(89, 8), 1), XdpAction::Pass);
    assert_eq!(stat(&state, STAT_XDP_UDP_PACKETS), 1);
    assert_eq!(stat(&state, STAT_XDP_ICMP_PACKETS), 1);
    assert_eq!(stat(&state, STAT_XDP_OTHER_PACKETS), 1);
    // Only TCP frames get per-connection accounting.
    assert_eq!(state.xdp_stats.len(), 0);
}

#[test]
fn tcp_frames_update_connection_counters() {
    let mut state = KernelState::new();
    let frame = tcp_frame();
    assert_eq!(xdp_process_packet(&mut state, &frame, 111), XdpAction::Pass);
    assert_eq!(stat(&state, STAT_XDP_TCP_PACKETS), 1);
    assert_eq!(state.xdp_stats.len(), 1);
    let entry = state.xdp_stats[0];
    // Addresses and ports keep their wire byte order in the key.
    assert_eq!(entry.key.saddr, u32::from_le_bytes([10, 0, 0, 1]));
    assert_eq!(entry.key.daddr, u32::from_le_bytes([10, 0, 0, 2]));
    assert_eq!(entry.key.sport, u16::from_le_bytes([0x12, 0x34]));
    assert_eq!(entry.key.dport, u16::from_le_bytes([0x56, 0x78]));
    assert_eq!(entry.stats.packet_count, 1);
    assert_eq!(entry.stats.byte_count, frame.len() as u64);
    assert_eq!(entry.stats.last_seen_ns, 111);
    assert_eq!(entry.stats.drop_count, 0);

    // A second packet of the same connection is purely additive.
    assert_eq!(xdp_process_packet(&mut state, &frame, 222), XdpAction::Pass);
    assert_eq!(state.xdp_stats.len(), 1);
    let entry = state.xdp_stats[0];
    assert_eq!(entry.stats.packet_count, 2);
    assert_eq!(entry.stats.byte_count, 2 * frame.len() as u64);
    assert_eq!(entry.stats.last_seen_ns, 222);
}
