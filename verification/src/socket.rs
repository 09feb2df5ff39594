//! Socket structure parsing.
//!
//! A probe receives an opaque pointer into kernel memory; a guarded read
//! either fails or yields the socket's common fields.  The library models
//! the outcome of that read as a plain value: `None` stands for a null
//! pointer or a rejected read, `Some` carries the fields read.  Every
//! function here works on that value, so the parsing and validation logic
//! is independent of how the read itself is performed.

use vstd::prelude::*;
use crate::types::ConnectionKey;

verus! {

/// IPv4 address family.
pub const AF_INET: u16 = 2;

/// IPv6 address family (deliberately unsupported).
pub const AF_INET6: u16 = 10;

/// Error code for a null or unreadable socket pointer.
pub const ERR_INVALID_POINTER: i64 = -1;

/// Error code for a non-IPv4 socket.
pub const ERR_UNSUPPORTED_FAMILY: i64 = -2;

/// The common fields of a kernel socket, as yielded by a guarded read.
///
/// Addresses and the destination port are in network byte order; the
/// source port is kept in host byte order by the kernel.
#[derive(Clone, Copy, Debug, PartialEq, Eq, Structural)]
pub struct SockCommon {
    /// Destination address (network byte order).
    pub skc_daddr: u32,
    /// Source address (network byte order).
    pub skc_rcv_saddr: u32,
    /// Destination port (network byte order).
    pub skc_dport: u16,
    /// Source port (host byte order).
    pub skc_num: u16,
    /// Address family.
    pub skc_family: u16,
    /// TCP connection state.
    pub skc_state: u8,
}

/// The two bytes of a port value exchanged.
pub open spec fn spec_swap_bytes_u16(x: u16) -> u16 {
    (((x % 256) * 256) + (x / 256)) as u16
}

/// Exchange the two bytes of a port value, converting between host and
/// network byte order.
pub fn swap_bytes_u16(x: u16) -> (r: u16)
    ensures
        r == spec_swap_bytes_u16(x),
{
    ((x % 256) * 256) + (x / 256)
}

/// The connection key owed for an IPv4 socket: addresses as stored, the
/// source port byte-swapped into network order.
pub open spec fn spec_key_of_sock(s: SockCommon) -> ConnectionKey {
    ConnectionKey {
        saddr: s.skc_rcv_saddr,
        daddr: s.skc_daddr,
        sport: spec_swap_bytes_u16(s.skc_num),
        dport: s.skc_dport,
    }
}

/// Extract the connection 4-tuple from a socket read.
///
/// Fails with `ERR_INVALID_POINTER` when the read failed, and with
/// `ERR_UNSUPPORTED_FAMILY` for any family but IPv4.
pub fn extract_connection_key(sock: Option<&SockCommon>) -> (r: Result<ConnectionKey, i64>)
    ensures
        match sock {
            Option::Some(s) => {
                if s.skc_family == AF_INET {
                    r == Result::<ConnectionKey, i64>::Ok(spec_key_of_sock(*s))
                } else {
                    r == Result::<ConnectionKey, i64>::Err(ERR_UNSUPPORTED_FAMILY)
                }
            },
            Option::None => r == Result::<ConnectionKey, i64>::Err(ERR_INVALID_POINTER),
        },
{
    match sock {
        Some(s) => {
            if s.skc_family != AF_INET {
                return Err(ERR_UNSUPPORTED_FAMILY);
            }
            Ok(
                ConnectionKey {
                    saddr: s.skc_rcv_saddr,
                    daddr: s.skc_daddr,
                    sport: swap_bytes_u16(s.skc_num),
                    dport: s.skc_dport,
                },
            )
        },
        None => Err(ERR_INVALID_POINTER),
    }
}

/// True exactly when the socket was readable and is IPv4.
///
/// Connections in every TCP state are tracked, so no state filter is
/// applied here.
pub fn is_valid_socket(sock: Option<&SockCommon>) -> (r: bool)
    ensures
        r == match sock {
            Option::Some(s) => s.skc_family == AF_INET,
            Option::None => false,
        },
{
    match sock {
        Some(s) => s.skc_family == AF_INET,
        None => false,
    }
}

/// The TCP state of a readable socket.
pub fn get_socket_state(sock: Option<&SockCommon>) -> (r: Result<u8, i64>)
    ensures
        match sock {
            Option::Some(s) => r == Result::<u8, i64>::Ok(s.skc_state),
            Option::None => r == Result::<u8, i64>::Err(ERR_INVALID_POINTER),
        },
{
    match sock {
        Some(s) => Ok(s.skc_state),
        None => Err(ERR_INVALID_POINTER),
    }
}

/// The address family of a readable socket.
pub fn get_socket_family(sock: Option<&SockCommon>) -> (r: Result<u16, i64>)
    ensures
        match sock {
            Option::Some(s) => r == Result::<u16, i64>::Ok(s.skc_family),
            Option::None => r == Result::<u16, i64>::Err(ERR_INVALID_POINTER),
        },
{
    match sock {
        Some(s) => Ok(s.skc_family),
        None => Err(ERR_INVALID_POINTER),
    }
}

} // verus!
