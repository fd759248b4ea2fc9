//! Addresses of hosts and travelers.

use vstd::prelude::*;

verus! {

/// An IP address with a port. The address is the number that its bytes form in
/// network order.
#[derive(Debug, Clone, Copy, PartialEq, Eq, Structural)]
pub enum SocketAddr {
    V4 { ip: u32, port: u16 },
    V6 { ip6: u128, port: u16, flowinfo: u32, scope_id: u32 },
}

/// The address 127.0.0.1 as a number.
pub const LOOPBACK_V4: u32 = 0x7f00_0001;

} // verus!
