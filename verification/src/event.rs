//! What a host or a traveler reports.

use vstd::prelude::*;

use crate::addr::SocketAddr;
use crate::config::TransportType;
use crate::error::NetworkError;
use crate::ids::{ConnectionId, RoomId};
use crate::message::Message;

verus! {

#[derive(Debug, Clone)]
pub enum NetworkEvent {
    TravelerArrived { id: ConnectionId, addr: SocketAddr, room: Option<RoomId> },
    TravelerLeft { id: ConnectionId, room: Option<RoomId> },
    MessageReceived { from: ConnectionId, message: Message, transport: TransportType },
    RoomCreated { room_id: RoomId, host: ConnectionId },
    RoomDestroyed { room_id: RoomId },
    TravelerJoinedRoom { traveler_id: ConnectionId, room_id: RoomId },
    TravelerLeftRoom { traveler_id: ConnectionId, room_id: RoomId },
    HostMigrated { old_host: ConnectionId, new_host: ConnectionId, room_id: RoomId },
    RateLimitExceeded { connection: ConnectionId },
    ValidationFailed { connection: ConnectionId, reason: String },
    Error { connection: Option<ConnectionId>, error: NetworkError },
}

} // verus!
