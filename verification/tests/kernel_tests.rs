//! Tests for the kernel-side state machine: the latency measurement
//! protocol, socket validation, lifecycle tracking and statistics.

use latency_probe::kernel::{
    create_drop_event, get_pid, get_tid, is_valid_latency, map_tcp_state, tcp_close, tcp_connect,
    tcp_recvmsg, tcp_sendmsg, tcp_set_state, KernelState, SockArg, STAT_CONNECTIONS_CLOSED,
    STAT_CONNECTIONS_OPENED, STAT_INVALID_LATENCY, STAT_INVALID_SOCKETS, STAT_RECV_EVENTS,
    STAT_SEND_EVENTS, STAT_TOTAL_EVENTS,
};
use latency_probe::socket::{
    extract_connection_key, get_socket_family, get_socket_state, is_valid_socket, SockCommon,
    AF_INET, AF_INET6, ERR_INVALID_POINTER, ERR_UNSUPPORTED_FAMILY,
};
use latency_probe::types::{
    ConnectionKey, CONN_STATE_CLOSED, CONN_STATE_CLOSING, CONN_STATE_CONNECTING,
    CONN_STATE_ESTABLISHED, EVENT_TYPE_RECV, MAX_LATENCY_NS, MIN_LATENCY_NS,
};

fn ipv4_sock() -> SockCommon {
    SockCommon {
        skc_daddr: 0x0200007f,
        skc_rcv_saddr: 0x0100007f,
        skc_dport: 0x5000,
        skc_num: 0x1234,
        skc_family: AF_INET,
        skc_state: 1,
    }
}

fn stat(state: &KernelState, id: u32) -> u64 {
    state.stats[id as usize]
}

#[test]
fn socket_parsing() {
    let sock = ipv4_sock();
    assert!(is_valid_socket(Some(&sock)));
    assert!(!is_valid_socket(None));
    let key = extract_connection_key(Some(&sock)).unwrap();
    assert_eq!(key.saddr, 0x0100007f);
    assert_eq!(key.daddr, 0x0200007f);
    // The source port is byte-swapped from host to network order.
    assert_eq!(key.sport, 0x3412);
    assert_eq!(key.dport, 0x5000);

    let v6 = SockCommon { skc_family: AF_INET6, ..sock };
    assert!(!is_valid_socket(Some(&v6)));
    assert_eq!(extract_connection_key(Some(&v6)), Err(ERR_UNSUPPORTED_FAMILY));
    assert_eq!(extract_connection_key(None), Err(ERR_INVALID_POINTER));

    assert_eq!(get_socket_state(Some(&sock)), Ok(1));
    assert_eq!(get_socket_family(Some(&sock)), Ok(AF_INET));
    assert_eq!(get_socket_family(None), Err(ERR_INVALID_POINTER));
}

#[test]
fn latency_window() {
    assert!(!is_valid_latency(MIN_LATENCY_NS - 1));
    assert!(is_valid_latency(MIN_LATENCY_NS));
    assert!(is_valid_latency(MAX_LATENCY_NS));
    assert!(!is_valid_latency(MAX_LATENCY_NS + 1));
}

#[test]
fn pid_tgid_halves() {
    let pid_tgid: u64 = (7 << 32) | 9;
    assert_eq!(get_pid(pid_tgid), 7);
    assert_eq!(get_tid(pid_tgid), 9);
}

#[test]
fn receive_baseline_protocol() {
    // Two non-advancing clock readings emit nothing and keep the baseline;
    // a later reading measures against the baseline recorded first.
    let mut state = KernelState::new();
    let sock = SockArg::Readable(ipv4_sock());

    assert_eq!(tcp_sendmsg(&mut state, &sock, 100), 0);

    let (rc, event) = tcp_recvmsg(&mut state, &sock, 100, 0);
    assert_eq!(rc, 0);
    assert!(event.is_none()); // now equals the baseline

    let (rc, event) = tcp_recvmsg(&mut state, &sock, 50, 0);
    assert_eq!(rc, 0);
    assert!(event.is_none()); // the clock went backwards

    let (rc, event) = tcp_recvmsg(&mut state, &sock, 5000, 0);
    assert_eq!(rc, 0);
    let event = event.unwrap();
    // Measured against the baseline of 100: the aborted calls did not
    // advance it.
    assert_eq!(event.latency_ns, 4900);
    assert_eq!(event.timestamp_ns, 5000);
    assert_eq!(event.event_type, EVENT_TYPE_RECV);
}

#[test]
fn receive_without_baseline_records_one() {
    let mut state = KernelState::new();
    let sock = SockArg::Readable(ipv4_sock());

    // No send seen yet: the first receive only records the baseline.
    let (rc, event) = tcp_recvmsg(&mut state, &sock, 1_000_000, 0);
    assert_eq!(rc, 0);
    assert!(event.is_none());

    // The second receive measures against it.
    let (_, event) = tcp_recvmsg(&mut state, &sock, 1_500_000, 0);
    assert_eq!(event.unwrap().latency_ns, 500_000);
}

#[test]
fn baseline_slides_after_each_emitted_event() {
    let mut state = KernelState::new();
    let sock = SockArg::Readable(ipv4_sock());
    tcp_sendmsg(&mut state, &sock, 1_000);
    let (_, first) = tcp_recvmsg(&mut state, &sock, 10_000, 0);
    assert_eq!(first.unwrap().latency_ns, 9_000);
    let (_, second) = tcp_recvmsg(&mut state, &sock, 25_000, 0);
    // Measured from the previous event, not from the original send.
    assert_eq!(second.unwrap().latency_ns, 15_000);
}

#[test]
fn out_of_window_latency_is_discarded_and_counted() {
    let mut state = KernelState::new();
    let sock = SockArg::Readable(ipv4_sock());
    tcp_sendmsg(&mut state, &sock, 0);
    let (_, event) = tcp_recvmsg(&mut state, &sock, MAX_LATENCY_NS + 1, 0);
    assert!(event.is_none());
    assert_eq!(stat(&state, STAT_INVALID_LATENCY), 1);

    // A sub-microsecond interval is a measurement error too.
    tcp_sendmsg(&mut state, &sock, 2_000_000);
    let (_, event) = tcp_recvmsg(&mut state, &sock, 2_000_500, 0);
    assert!(event.is_none());
    assert_eq!(stat(&state, STAT_INVALID_LATENCY), 2);
}

#[test]
fn activation_counted_before_validation() {
    let mut state = KernelState::new();

    assert_eq!(tcp_sendmsg(&mut state, &SockArg::Missing, 1), 1);
    assert_eq!(stat(&state, STAT_TOTAL_EVENTS), 1);
    assert_eq!(stat(&state, STAT_SEND_EVENTS), 1);

    assert_eq!(tcp_sendmsg(&mut state, &SockArg::Unreadable, 1), 0);
    assert_eq!(stat(&state, STAT_INVALID_SOCKETS), 1);

    let v6 = SockCommon { skc_family: AF_INET6, ..ipv4_sock() };
    let (rc, event) = tcp_recvmsg(&mut state, &SockArg::Readable(v6), 1, 0);
    assert_eq!(rc, 0);
    assert!(event.is_none());
    assert_eq!(stat(&state, STAT_INVALID_SOCKETS), 2);
    assert_eq!(stat(&state, STAT_TOTAL_EVENTS), 3);
    assert_eq!(stat(&state, STAT_RECV_EVENTS), 1);
}

#[test]
fn raw_tcp_states_map_onto_lifecycle() {
    assert_eq!(map_tcp_state(1), CONN_STATE_ESTABLISHED);
    assert_eq!(map_tcp_state(4), CONN_STATE_ESTABLISHED);
    assert_eq!(map_tcp_state(6), CONN_STATE_ESTABLISHED);
    assert_eq!(map_tcp_state(7), CONN_STATE_CLOSED);
    assert_eq!(map_tcp_state(8), CONN_STATE_CLOSING);
    assert_eq!(map_tcp_state(10), CONN_STATE_CLOSING);
    assert_eq!(map_tcp_state(0), CONN_STATE_CONNECTING);
    assert_eq!(map_tcp_state(12), CONN_STATE_CONNECTING);
}

#[test]
fn lifecycle_tracking() {
    let mut state = KernelState::new();
    let key = ConnectionKey { saddr: 1, daddr: 2, sport: 3, dport: 4 };

    assert_eq!(tcp_connect(&mut state, key, 1_000, 42), 0);
    let record = state.get_conn_state(&key).unwrap();
    assert_eq!(record.state, CONN_STATE_CONNECTING);
    assert_eq!(record.start_time_ns, 1_000);
    assert_eq!(record.pid, 42);

    // Raw state 1: established, counted as opened; the record keeps its
    // start time.
    assert_eq!(tcp_set_state(&mut state, key, 1, 2_000, 42), 0);
    let record = state.get_conn_state(&key).unwrap();
    assert_eq!(record.state, CONN_STATE_ESTABLISHED);
    assert_eq!(record.start_time_ns, 1_000);

    // The close hook forces closing and stamps the close time.
    assert_eq!(tcp_close(&mut state, key, 3_000), 0);
    let record = state.get_conn_state(&key).unwrap();
    assert_eq!(record.state, CONN_STATE_CLOSING);
    assert_eq!(record.close_time_ns, 3_000);

    // Raw state 7: closed; the close time moves forward, last write wins.
    assert_eq!(tcp_set_state(&mut state, key, 7, 4_000, 42), 0);
    let record = state.get_conn_state(&key).unwrap();
    assert_eq!(record.state, CONN_STATE_CLOSED);
    assert_eq!(record.close_time_ns, 4_000);

    assert_eq!(stat(&state, STAT_CONNECTIONS_OPENED), 1);
    assert_eq!(stat(&state, STAT_CONNECTIONS_CLOSED), 1);
}

#[test]
fn state_change_creates_missing_record() {
    let mut state = KernelState::new();
    let key = ConnectionKey { saddr: 9, daddr: 8, sport: 7, dport: 6 };
    tcp_set_state(&mut state, key, 7, 5_000, 1);
    let record = state.get_conn_state(&key).unwrap();
    assert_eq!(record.state, CONN_STATE_CLOSED);
    assert_eq!(record.start_time_ns, 5_000);
    assert_eq!(record.close_time_ns, 5_000);
}

#[test]
fn drop_event_key_defaults_to_zero() {
    let event = create_drop_event(None, 77, 5, 1, 6);
    assert_eq!(event.key, ConnectionKey { saddr: 0, daddr: 0, sport: 0, dport: 0 });
    assert_eq!(event.timestamp_ns, 77);
    assert_eq!(event.drop_reason, 5);
    let key = ConnectionKey { saddr: 1, daddr: 1, sport: 1, dport: 1 };
    assert_eq!(create_drop_event(Some(key), 1, 2, 3, 4).key, key);
}
