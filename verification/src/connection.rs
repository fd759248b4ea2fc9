//! What a host knows of a connection.

use vstd::prelude::*;

use crate::addr::SocketAddr;
use crate::config::TransportType;
use crate::ids::{ConnectionId, RoomId};
use crate::time::Instant;

verus! {

/// A connection with its counters. Times are those of the host's clock.
#[derive(Debug)]
pub struct ConnectionInfo {
    pub id: ConnectionId,
    pub addr: SocketAddr,
    pub connected_at: Instant,
    pub bytes_sent: u64,
    pub bytes_received: u64,
    pub last_activity: Instant,
    pub room_id: Option<RoomId>,
    pub transport: TransportType,
    pub authenticated: bool,
    pub message_count: u32,
    pub last_rate_reset: Instant,
}

impl Clone for ConnectionInfo {
    fn clone(&self) -> (c: ConnectionInfo)
        ensures
            c == *self,
    {
        let room_id = match &self.room_id {
            Some(room) => Some(room.clone()),
            None => None,
        };
        ConnectionInfo {
            id: self.id,
            addr: self.addr,
            connected_at: self.connected_at,
            bytes_sent: self.bytes_sent,
            bytes_received: self.bytes_received,
            last_activity: self.last_activity,
            room_id,
            transport: self.transport,
            authenticated: self.authenticated,
            message_count: self.message_count,
            last_rate_reset: self.last_rate_reset,
        }
    }
}

impl ConnectionInfo {
    /// A TCP connection that was made at `now` and over which nothing has passed yet.
    pub open spec fn fresh(id: ConnectionId, addr: SocketAddr, now: Instant) -> ConnectionInfo {
        ConnectionInfo {
            id,
            addr,
            connected_at: now,
            bytes_sent: 0,
            bytes_received: 0,
            last_activity: now,
            room_id: None,
            transport: TransportType::Tcp,
            authenticated: false,
            message_count: 0,
            last_rate_reset: now,
        }
    }

    /// The connection after a message of `bytes` bytes came over it at `now`. The
    /// counters wrap around.
    pub open spec fn received(self, bytes: u64, now: Instant) -> ConnectionInfo {
        ConnectionInfo {
            bytes_received: self.bytes_received.wrapping_add(bytes),
            last_activity: now,
            message_count: self.message_count.wrapping_add(1),
            ..self
        }
    }

    /// The connection after `bytes` bytes were sent over it at `now`. The counter
    /// wraps around.
    pub open spec fn sent(self, bytes: u64, now: Instant) -> ConnectionInfo {
        ConnectionInfo {
            bytes_sent: self.bytes_sent.wrapping_add(bytes),
            last_activity: now,
            ..self
        }
    }

    /// A TCP connection that was made at `now` and over which nothing has passed yet.
    pub fn new(id: ConnectionId, addr: SocketAddr, now: Instant) -> (c: ConnectionInfo)
        ensures
            c == ConnectionInfo::fresh(id, addr, now),
    {
        ConnectionInfo {
            id,
            addr,
            connected_at: now,
            bytes_sent: 0,
            bytes_received: 0,
            last_activity: now,
            room_id: None,
            transport: TransportType::Tcp,
            authenticated: false,
            message_count: 0,
            last_rate_reset: now,
        }
    }
}

/// A new connection has carried nothing: its counters are zero, its times are that of
/// its arrival, and it is in no room and not authenticated.
pub proof fn law_new_connection_is_unused(id: ConnectionId, addr: SocketAddr, now: Instant)
    ensures
        ConnectionInfo::fresh(id, addr, now).id == id,
        ConnectionInfo::fresh(id, addr, now).addr == addr,
        ConnectionInfo::fresh(id, addr, now).connected_at == now,
        ConnectionInfo::fresh(id, addr, now).last_activity == now,
        ConnectionInfo::fresh(id, addr, now).last_rate_reset == now,
        ConnectionInfo::fresh(id, addr, now).bytes_sent == 0,
        ConnectionInfo::fresh(id, addr, now).bytes_received == 0,
        ConnectionInfo::fresh(id, addr, now).message_count == 0,
        ConnectionInfo::fresh(id, addr, now).room_id is None,
        ConnectionInfo::fresh(id, addr, now).transport == TransportType::Tcp,
        !ConnectionInfo::fresh(id, addr, now).authenticated,
{
}

/// Receiving is counted: one message and its bytes are added, as far as the counters
/// go, the connection was active then, and nothing else changes.
pub proof fn law_receiving_is_counted(c: ConnectionInfo, bytes: u64, now: Instant)
    ensures
        c.bytes_received + bytes <= u64::MAX ==> c.received(bytes, now).bytes_received
            == c.bytes_received + bytes,
        c.bytes_received + bytes > u64::MAX ==> c.received(bytes, now).bytes_received
            == c.bytes_received + bytes - u64::MAX - 1,
        c.message_count < u32::MAX ==> c.received(bytes, now).message_count == c.message_count + 1,
        c.message_count == u32::MAX ==> c.received(bytes, now).message_count == 0,
        c.received(bytes, now).last_activity == now,
        c.received(bytes, now).id == c.id,
        c.received(bytes, now).addr == c.addr,
        c.received(bytes, now).connected_at == c.connected_at,
        c.received(bytes, now).bytes_sent == c.bytes_sent,
        c.received(bytes, now).room_id == c.room_id,
        c.received(bytes, now).transport == c.transport,
        c.received(bytes, now).authenticated == c.authenticated,
        c.received(bytes, now).last_rate_reset == c.last_rate_reset,
{
}

/// Sending is counted: the bytes are added, as far as the counter goes, the connection
/// was active then, and nothing else changes.
pub proof fn law_sending_is_counted(c: ConnectionInfo, bytes: u64, now: Instant)
    ensures
        c.bytes_sent + bytes <= u64::MAX ==> c.sent(bytes, now).bytes_sent == c.bytes_sent + bytes,
        c.bytes_sent + bytes > u64::MAX ==> c.sent(bytes, now).bytes_sent == c.bytes_sent + bytes
            - u64::MAX - 1,
        c.sent(bytes, now).last_activity == now,
        c.sent(bytes, now).id == c.id,
        c.sent(bytes, now).addr == c.addr,
        c.sent(bytes, now).connected_at == c.connected_at,
        c.sent(bytes, now).bytes_received == c.bytes_received,
        c.sent(bytes, now).message_count == c.message_count,
        c.sent(bytes, now).room_id == c.room_id,
        c.sent(bytes, now).transport == c.transport,
        c.sent(bytes, now).authenticated == c.authenticated,
        c.sent(bytes, now).last_rate_reset == c.last_rate_reset,
{
}

} // verus!
