//! What holds of a host across several operations.

use vstd::prelude::*;

use crate::addr::SocketAddr;
use crate::codec::{carries, law_codec_round_trip, opened};
use crate::config::{NetworkConfig, NetworkStats, TransportType};
use crate::connection::ConnectionInfo;
use crate::error::NetworkError;
use crate::event::NetworkEvent;
use crate::host::{create_room_refusal, lists_connections, stats_view, Host};
use crate::host::{reports_message, reports_rejection, tcp_step, udp_step, HostView};
use crate::ids::{ConnectionId, RoomId};
use crate::message::MessageView;
use crate::room::{is_other, law_first_of_the_others_hosts, law_joiner_stands_last};
use crate::room::{law_leave_undoes_join, law_leaver_gives_up_one_place, law_leaver_is_gone};
use crate::room::{law_only_a_host_passes_on, law_others_stay};
use crate::room::{Room, RoomView};
use crate::room_table::lists_rooms;
use crate::time::Instant;
use crate::validator::verdict;
use crate::wire::wire_bytes;

verus! {

/// What is sent is what is reported: where the bytes of an acceptable message
/// come over TCP within the rate limit, exactly one report is added, and it is of
/// that very message.
pub proof fn law_sent_is_reported(
    before: HostView,
    after: HostView,
    max_size: usize,
    id: ConnectionId,
    m: MessageView,
    bytes: Seq<u8>,
    now: Instant,
)
    requires
        wire_bytes(m).len() <= u64::MAX,
        carries(bytes, m, before.compression),
        verdict(max_size, m) is Ok,
        tcp_step(before, after, max_size, id, bytes, true, now),
    ensures
        after.events.len() == before.events.len() + 1,
        after.events.drop_last() == before.events,
        reports_message(after.events.last(), id, m, TransportType::Tcp),
{
    law_codec_round_trip(m, before.compression, bytes);
    assert(after.events.drop_last() =~= before.events);
}

/// The same over UDP, where the report is under the identifier that the datagram was given.
pub proof fn law_sent_is_reported_udp(
    before: HostView,
    after: HostView,
    max_size: usize,
    id: ConnectionId,
    m: MessageView,
    bytes: Seq<u8>,
)
    requires
        wire_bytes(m).len() <= u64::MAX,
        carries(bytes, m, before.compression),
        verdict(max_size, m) is Ok,
        udp_step(before, after, max_size, id, bytes, true),
    ensures
        after.events.len() == before.events.len() + 1,
        after.events.drop_last() == before.events,
        reports_message(after.events.last(), id, m, TransportType::Udp),
{
    law_codec_round_trip(m, before.compression, bytes);
    assert(after.events.drop_last() =~= before.events);
}

/// What is refused is answered: a message that is not acceptable is reported as
/// such, and what goes beyond the rate limit is reported as that. In neither case
/// does anything else change.
pub proof fn law_refused_is_reported(
    before: HostView,
    after: HostView,
    max_size: usize,
    id: ConnectionId,
    m: MessageView,
    bytes: Seq<u8>,
    admitted: bool,
    now: Instant,
)
    requires
        wire_bytes(m).len() <= u64::MAX,
        carries(bytes, m, before.compression),
        !admitted || verdict(max_size, m) is Err,
        tcp_step(before, after, max_size, id, bytes, admitted, now),
    ensures
        after == before.reported(after.events.last()),
        !admitted ==> after.events.last() == (NetworkEvent::RateLimitExceeded { connection: id }),
        admitted ==> reports_rejection(after.events.last(), id),
{
    law_codec_round_trip(m, before.compression, bytes);
}

/// An empty room goes with its host: where a host creates a room and leaves it
/// before anyone joined, the rooms are as they were before.
pub proof fn law_create_then_leave(
    host: HostView,
    room_id: RoomId,
    id: ConnectionId,
    max_travelers: usize,
    now: Instant,
)
    requires
        !host.rooms.contains_key(room_id@),
    ensures
        host.room_created(room_id, id, max_travelers, now).room_left(room_id, id).rooms
            == host.rooms,
{
    let created = host.room_created(room_id, id, max_travelers, now);
    let room = created.rooms[room_id@];
    assert(room.others(id).len() == 0) by {
        room.travelers.lemma_filter_len(is_other(id));
    }
    assert(created.room_left(room_id, id).rooms =~= host.rooms);
}

/// Leaving undoes joining: where somebody who neither travelled in a room nor
/// hosted it joins and leaves, the rooms are as they were before.
pub proof fn law_join_then_leave(host: HostView, room_id: RoomId, id: ConnectionId)
    requires
        host.rooms.contains_key(room_id@),
        !host.rooms[room_id@].travelers.contains(id),
        host.rooms[room_id@].host != id,
    ensures
        host.room_joined(room_id, id).room_left(room_id, id).rooms == host.rooms,
{
    law_leave_undoes_join(host.rooms[room_id@], id);
    assert(host.room_joined(room_id, id).room_left(room_id, id).rooms =~= host.rooms);
}

/// Who leaves a room is gone: afterwards the room is destroyed, or has another
/// host and does not have the leaver among its travelers.
pub proof fn law_leaver_is_out(host: HostView, room_id: RoomId, id: ConnectionId)
    requires
        host.wf(),
        host.rooms.contains_key(room_id@),
    ensures
        host.room_left(room_id, id).rooms.contains_key(room_id@) ==> {
            let room = host.room_left(room_id, id).rooms[room_id@];
            room.host != id && !room.travelers.contains(id)
        },
{
    law_leaver_is_gone(host.rooms[room_id@], id);
}

/// A room is destroyed exactly when its host leaves and nobody else travels in it.
pub proof fn law_destroyed_when_deserted(host: HostView, room_id: RoomId, id: ConnectionId)
    requires
        host.wf(),
        host.rooms.contains_key(room_id@),
    ensures
        !host.room_left(room_id, id).rooms.contains_key(room_id@) <==> (host.rooms[room_id@].host
            == id && forall|t: ConnectionId| #[trigger]
            host.rooms[room_id@].travelers.contains(t) ==> t == id),
{
    let room = host.rooms[room_id@];
    let others = room.others(id);
    if others.len() == 0 {
        assert forall|t: ConnectionId| #[trigger] room.travelers.contains(t) implies t == id by {
            if t != id {
                law_others_stay(room, id, t);
            }
        }
    }
    if others.len() > 0 {
        assert(others.contains(others[0]));
        room.travelers.lemma_filter_contains_rev(is_other(id), others[0]);
        room.travelers.lemma_filter_pred(is_other(id), 0);
        assert(room.travelers.contains(others[0]));
    }
}

/// A room passes to one of its travelers: where the host leaves others behind,
/// the one who joined first of them hosts the room from then on, and that is reported.
pub proof fn law_host_migrates(host: HostView, room_id: RoomId, id: ConnectionId)
    requires
        host.wf(),
        host.rooms.contains_key(room_id@),
        host.rooms[room_id@].migrates(id),
    ensures
        ({
            let room = host.rooms[room_id@];
            let after = host.room_left(room_id, id);
            &&& room.travelers.contains(after.rooms[room_id@].host)
            &&& after.rooms[room_id@].host == room.others(id)[0]
            &&& after.events.last() == NetworkEvent::HostMigrated {
                old_host: id,
                new_host: after.rooms[room_id@].host,
                room_id,
            }
        }),
{
    let room = host.rooms[room_id@];
    let others = room.others(id);
    assert(others.contains(others[0]));
    room.travelers.lemma_filter_contains_rev(is_other(id), others[0]);
}

/// Rooms are independent: creating, joining or leaving one leaves every other as it was.
pub proof fn law_other_rooms_unaffected(
    host: HostView,
    room_id: RoomId,
    id: ConnectionId,
    max_travelers: usize,
    now: Instant,
    other: Seq<char>,
)
    requires
        other != room_id@,
    ensures
        host.room_created(room_id, id, max_travelers, now).rooms.contains_key(other)
            == host.rooms.contains_key(other),
        host.room_created(room_id, id, max_travelers, now).rooms[other] == host.rooms[other],
        host.room_joined(room_id, id).rooms.contains_key(other) == host.rooms.contains_key(other),
        host.room_joined(room_id, id).rooms[other] == host.rooms[other],
        host.room_left(room_id, id).rooms.contains_key(other) == host.rooms.contains_key(other),
        host.room_left(room_id, id).rooms[other] == host.rooms[other],
{
}

/// Reports are never lost or reordered: every operation adds its reports behind
/// those that are still waiting.
pub proof fn law_reports_are_appended(
    host: HostView,
    room_id: RoomId,
    id: ConnectionId,
    addr: SocketAddr,
    max_travelers: usize,
    now: Instant,
)
    ensures
        host.events.is_prefix_of(host.arrived(id, addr, now).events),
        host.events.is_prefix_of(host.departed(id).events),
        host.events.is_prefix_of(host.room_created(room_id, id, max_travelers, now).events),
        host.events.is_prefix_of(host.room_joined(room_id, id).events),
        host.events.is_prefix_of(host.room_left(room_id, id).events),
{
}

/// The same holds of what comes over TCP and UDP: at most one report is added.
pub proof fn law_data_reports_are_appended(
    before: HostView,
    after: HostView,
    max_size: usize,
    id: ConnectionId,
    data: Seq<u8>,
    admitted: bool,
    now: Instant,
)
    requires
        tcp_step(before, after, max_size, id, data, admitted, now) || udp_step(
            before,
            after,
            max_size,
            id,
            data,
            admitted,
        ),
    ensures
        before.events.is_prefix_of(after.events),
        after.events.len() <= before.events.len() + 1,
        after.rooms == before.rooms,
{
}

/// Connections are independent: what is noted of one when it arrives, departs,
/// sends, is sent to, or enters or leaves a room, changes nothing about another.
pub proof fn law_other_connections_unaffected(
    host: HostView,
    room_id: RoomId,
    id: ConnectionId,
    other: ConnectionId,
    addr: SocketAddr,
    bytes: u64,
    max_travelers: usize,
    now: Instant,
)
    requires
        other != id,
        host.connections.contains_key(other),
    ensures
        keeps_connection(host, host.arrived(id, addr, now), other),
        keeps_connection(host, host.departed(id), other),
        keeps_connection(host, host.counted_received(id, bytes, now), other),
        keeps_connection(host, host.counted_sent(id, bytes, now), other),
        keeps_connection(host, host.room_created(room_id, id, max_travelers, now), other),
        keeps_connection(host, host.room_joined(room_id, id), other),
        keeps_connection(host, host.room_left(room_id, id), other),
{
}

/// What is known of a connection is known after as before.
pub open spec fn keeps_connection(before: HostView, after: HostView, id: ConnectionId) -> bool {
    after.connections.contains_key(id) && after.connections[id] == before.connections[id]
}

/// The counters follow the rooms: creating a room raises their number by one,
/// joining leaves it, and leaving lowers it by one exactly where the room is destroyed.
pub proof fn law_rooms_are_counted(
    host: HostView,
    room_id: RoomId,
    id: ConnectionId,
    max_travelers: usize,
    now: Instant,
    uptime: u64,
)
    requires
        host.wf(),
    ensures
        !host.rooms.contains_key(room_id@) && host.rooms.len() < host.config.max_rooms
            ==> stats_view(
            host.room_created(room_id, id, max_travelers, now),
            uptime,
        ).active_rooms == stats_view(host, uptime).active_rooms + 1,
        host.rooms.contains_key(room_id@) ==> stats_view(
            host.room_joined(room_id, id),
            uptime,
        ).active_rooms == stats_view(host, uptime).active_rooms,
        host.rooms.contains_key(room_id@) ==> stats_view(
            host.room_left(room_id, id),
            uptime,
        ).active_rooms == stats_view(host, uptime).active_rooms - (if host.rooms[room_id@].deserted(
            id,
        ) {
            1int
        } else {
            0
        }),
{
    let room = host.rooms[room_id@];
    if host.rooms.contains_key(room_id@) {
        assert(host.room_joined(room_id, id).rooms.dom() =~= host.rooms.dom());
        if !room.deserted(id) {
            assert(host.room_left(room_id, id).rooms.dom() =~= host.rooms.dom());
        }
    }
}

/// The counters follow the connections: the arrival of a new one raises their
/// number by one, its departure lowers it by one.
pub proof fn law_connections_are_counted(
    host: HostView,
    id: ConnectionId,
    addr: SocketAddr,
    now: Instant,
)
    requires
        host.wf(),
    ensures
        !host.connections.contains_key(id) ==> host.arrived(id, addr, now).connections.len()
            == host.connections.len() + 1,
        host.connections.contains_key(id) ==> host.departed(id).connections.len()
            == host.connections.len() - 1,
{
}

/// The counters agree with the lists: they give the numbers of connections and
/// rooms that are listed.
pub proof fn law_counters_agree_with_lists(
    host: HostView,
    connections: Seq<ConnectionInfo>,
    rooms: Seq<Room>,
    uptime: u64,
)
    requires
        host.wf(),
        lists_connections(connections, host.connections),
        lists_rooms(rooms, host.rooms),
        connections.len() <= usize::MAX,
    ensures
        stats_view(host, uptime).active_connections == connections.len(),
        stats_view(host, uptime).active_rooms == rooms.len(),
        stats_view(host, uptime).uptime_seconds == uptime,
{
}

/// A traveler can be reached from its arrival until its stream ends.
pub proof fn law_reachable_while_connected(
    host: HostView,
    id: ConnectionId,
    addr: SocketAddr,
    now: Instant,
)
    ensures
        host.arrived(id, addr, now).connections.contains_key(id),
        !host.arrived(id, addr, now).departed(id).connections.contains_key(id),
        host.arrived(id, addr, now).departed(id).connections == host.connections.remove(id),
{
    assert(host.arrived(id, addr, now).departed(id).connections =~= host.connections.remove(id));
}

/// A connection knows its room: after creating or joining a room it is noted
/// there, after leaving one it is noted nowhere.
pub proof fn law_room_is_noted(
    host: HostView,
    room_id: RoomId,
    id: ConnectionId,
    max_travelers: usize,
    now: Instant,
)
    requires
        host.connections.contains_key(id),
    ensures
        host.room_created(room_id, id, max_travelers, now).connections[id].room_id == Some(room_id),
        host.room_joined(room_id, id).connections[id].room_id == Some(room_id),
        host.room_left(room_id, id).connections[id].room_id == None::<RoomId>,
{
}

/// Joining twice is joining once: where the room is not full in between, who
/// joins a room again changes nothing about the rooms.
pub proof fn law_join_is_idempotent(host: HostView, room_id: RoomId, id: ConnectionId)
    requires
        host.rooms.contains_key(room_id@),
    ensures
        host.room_joined(room_id, id).room_joined(room_id, id).rooms == host.room_joined(
            room_id,
            id,
        ).rooms,
{
    let room = host.rooms[room_id@];
    let once: RoomView = room.joined(id);
    assert(once.travelers.contains(id)) by {
        if !room.travelers.contains(id) {
            assert(once.travelers[room.travelers.len() as int] == id);
        }
    }
    assert(host.room_joined(room_id, id).room_joined(room_id, id).rooms =~= host.room_joined(
        room_id,
        id,
    ).rooms);
}

/// A new host is empty: it has its configuration and nothing else, and its counters are zero.
pub proof fn law_new_host_is_empty(config: NetworkConfig, compression: bool)
    ensures
        HostView::fresh(config, compression).config == config,
        HostView::fresh(config, compression).compression == compression,
        HostView::fresh(config, compression).connections.dom() == Set::<ConnectionId>::empty(),
        HostView::fresh(config, compression).rooms.dom() == Set::<Seq<char>>::empty(),
        HostView::fresh(config, compression).events.len() == 0,
        HostView::fresh(config, compression).stats == NetworkStats::zero(),
{
}

/// A room takes as many travelers as were asked for, where that is within what is
/// configured, and else as many as are configured.
pub proof fn law_room_takes_what_was_asked_for(
    host: HostView,
    room_id: RoomId,
    id: ConnectionId,
    wanted: usize,
    now: Instant,
)
    ensures
        wanted <= host.config.max_travelers_per_room ==> host.room_created(
            room_id,
            id,
            wanted,
            now,
        ).rooms[room_id@].max_travelers == wanted,
        wanted > host.config.max_travelers_per_room ==> host.room_created(
            room_id,
            id,
            wanted,
            now,
        ).rooms[room_id@].max_travelers == host.config.max_travelers_per_room,
{
}

/// The only thing that changes about a connection is the room that is noted, and only
/// where the connection is known.
pub open spec fn only_noted(
    before: HostView,
    after: HostView,
    id: ConnectionId,
    room_id: Option<RoomId>,
) -> bool {
    &&& after.connections.dom() == before.connections.dom()
    &&& forall|other: ConnectionId|
        other != id && before.connections.contains_key(other) ==> (
        #[trigger] after.connections[other]) == before.connections[other]
    &&& before.connections.contains_key(id) ==> {
        &&& after.connections[id].room_id == room_id
        &&& after.connections[id].id == before.connections[id].id
        &&& after.connections[id].addr == before.connections[id].addr
        &&& after.connections[id].connected_at == before.connections[id].connected_at
        &&& after.connections[id].bytes_sent == before.connections[id].bytes_sent
        &&& after.connections[id].bytes_received == before.connections[id].bytes_received
        &&& after.connections[id].last_activity == before.connections[id].last_activity
        &&& after.connections[id].transport == before.connections[id].transport
        &&& after.connections[id].authenticated == before.connections[id].authenticated
        &&& after.connections[id].message_count == before.connections[id].message_count
        &&& after.connections[id].last_rate_reset == before.connections[id].last_rate_reset
    }
    &&& after.config == before.config
    &&& after.compression == before.compression
    &&& after.stats == before.stats
}

/// Creating a room adds it, empty and hosted by its creator, notes it of the creator and
/// reports it once. Nothing else changes.
pub proof fn law_creating_a_room(
    host: HostView,
    room_id: RoomId,
    id: ConnectionId,
    wanted: usize,
    now: Instant,
)
    ensures
        ({
            let after = host.room_created(room_id, id, wanted, now);
            let room = after.rooms[room_id@];
            &&& after.rooms.dom() == host.rooms.dom().insert(room_id@)
            &&& room.id == room_id@
            &&& room.host == id
            &&& room.travelers.len() == 0
            &&& room.created_at == now
            &&& room.metadata.dom() == Set::<String>::empty()
            &&& after.events == host.events + seq![NetworkEvent::RoomCreated { room_id, host: id }]
            &&& only_noted(host, after, id, Some(room_id))
        }),
{
    let after = host.room_created(room_id, id, wanted, now);
    assert(after.rooms.dom() =~= host.rooms.dom().insert(room_id@));
    assert(after.events =~= host.events + seq![NetworkEvent::RoomCreated { room_id, host: id }]);
    assert(after.connections.dom() =~= host.connections.dom());
}

/// Joining a room puts the newcomer behind its travelers, notes the room of it and
/// reports it once. The room keeps its host, and nothing else changes.
pub proof fn law_joining_a_room(host: HostView, room_id: RoomId, id: ConnectionId)
    requires
        host.rooms.contains_key(room_id@),
    ensures
        ({
            let before = host.rooms[room_id@];
            let after = host.room_joined(room_id, id);
            let room = after.rooms[room_id@];
            &&& after.rooms.dom() == host.rooms.dom()
            &&& !before.travelers.contains(id) ==> room.travelers == before.travelers + seq![id]
            &&& before.travelers.contains(id) ==> room.travelers == before.travelers
            &&& room.host == before.host
            &&& room.id == before.id
            &&& room.created_at == before.created_at
            &&& room.max_travelers == before.max_travelers
            &&& room.metadata == before.metadata
            &&& after.events == host.events + seq![
                NetworkEvent::TravelerJoinedRoom { traveler_id: id, room_id },
            ]
            &&& only_noted(host, after, id, Some(room_id))
        }),
{
    let before = host.rooms[room_id@];
    let after = host.room_joined(room_id, id);
    law_joiner_stands_last(before, id);
    assert(after.rooms.dom() =~= host.rooms.dom());
    if !before.travelers.contains(id) {
        assert(after.rooms[room_id@].travelers =~= before.travelers + seq![id]);
    }
    assert(after.events =~= host.events + seq![
        NetworkEvent::TravelerJoinedRoom { traveler_id: id, room_id },
    ]);
    assert(after.connections.dom() =~= host.connections.dom());
}

/// Who leaves without hosting leaves the room to its host: the leaver's place goes, the
/// host stays, and the leaving is the only report.
pub proof fn law_traveler_leaves(host: HostView, room_id: RoomId, id: ConnectionId)
    requires
        host.wf(),
        host.rooms.contains_key(room_id@),
        host.rooms[room_id@].host != id,
    ensures
        ({
            let before = host.rooms[room_id@];
            let after = host.room_left(room_id, id);
            let room = after.rooms[room_id@];
            &&& after.rooms.dom() == host.rooms.dom()
            &&& room.host == before.host
            &&& !room.travelers.contains(id)
            &&& forall|place: int|
                0 <= place < before.travelers.len() && #[trigger] before.travelers[place] == id
                    ==> room.travelers == before.travelers.remove(place)
            &&& !before.travelers.contains(id) ==> room.travelers == before.travelers
            &&& room.id == before.id
            &&& room.created_at == before.created_at
            &&& room.max_travelers == before.max_travelers
            &&& room.metadata == before.metadata
            &&& after.events == host.events + seq![
                NetworkEvent::TravelerLeftRoom { traveler_id: id, room_id },
            ]
            &&& only_noted(host, after, id, None)
        }),
{
    let before = host.rooms[room_id@];
    let after = host.room_left(room_id, id);
    law_only_a_host_passes_on(before, id);
    law_leaver_is_gone(before, id);
    law_leaver_gives_up_one_place(before, id, 0);
    assert forall|place: int|
        0 <= place < before.travelers.len() && #[trigger] before.travelers[place]
            == id implies after.rooms[room_id@].travelers == before.travelers.remove(place) by {
        law_leaver_gives_up_one_place(before, id, place);
        assert(after.rooms[room_id@].travelers =~= before.travelers.remove(place));
    }
    assert(after.rooms.dom() =~= host.rooms.dom());
    assert(after.events =~= host.events + seq![
        NetworkEvent::TravelerLeftRoom { traveler_id: id, room_id },
    ]);
    assert(after.connections.dom() =~= host.connections.dom());
}

/// A host who leaves others behind passes the room on to the first of them: the leaving
/// is reported, and then who hosts the room in whose place. Nothing else changes.
pub proof fn law_host_leaves_others_behind(
    host: HostView,
    room_id: RoomId,
    id: ConnectionId,
    place: int,
)
    requires
        host.wf(),
        host.rooms.contains_key(room_id@),
        host.rooms[room_id@].host == id,
        0 <= place < host.rooms[room_id@].travelers.len(),
        host.rooms[room_id@].travelers[place] != id,
        forall|i: int| 0 <= i < place ==> #[trigger] host.rooms[room_id@].travelers[i] == id,
    ensures
        ({
            let before = host.rooms[room_id@];
            let after = host.room_left(room_id, id);
            let room = after.rooms[room_id@];
            &&& after.rooms.dom() == host.rooms.dom()
            &&& room.host == before.travelers[place]
            &&& !room.travelers.contains(id)
            &&& forall|t: ConnectionId|
                t != id ==> (#[trigger] room.travelers.contains(t) <==> before.travelers.contains(t))
            &&& room.travelers == before.left(id).travelers
            &&& room.id == before.id
            &&& room.created_at == before.created_at
            &&& room.max_travelers == before.max_travelers
            &&& room.metadata == before.metadata
            &&& after.events == host.events + seq![
                NetworkEvent::TravelerLeftRoom { traveler_id: id, room_id },
                NetworkEvent::HostMigrated {
                    old_host: id,
                    new_host: before.travelers[place],
                    room_id,
                },
            ]
            &&& only_noted(host, after, id, None)
        }),
{
    let before = host.rooms[room_id@];
    let after = host.room_left(room_id, id);
    law_first_of_the_others_hosts(before, place);
    law_leaver_is_gone(before, id);
    law_leaver_gives_up_one_place(before, id, 0);
    assert forall|t: ConnectionId| t != id implies (#[trigger] after.rooms[room_id@].travelers.contains(
        t,
    ) <==> before.travelers.contains(t)) by {
        law_others_stay(before, id, t);
    }
    assert(after.rooms.dom() =~= host.rooms.dom());
    assert(after.events =~= host.events + seq![
        NetworkEvent::TravelerLeftRoom { traveler_id: id, room_id },
        NetworkEvent::HostMigrated { old_host: id, new_host: before.travelers[place], room_id },
    ]);
    assert(after.connections.dom() =~= host.connections.dom());
}

/// A host who leaves nobody behind takes the room with it: the room is gone, the leaving
/// is reported, and then the room's end. Nothing else changes.
pub proof fn law_host_leaves_nobody_behind(host: HostView, room_id: RoomId, id: ConnectionId)
    requires
        host.wf(),
        host.rooms.contains_key(room_id@),
        host.rooms[room_id@].host == id,
        forall|i: int|
            0 <= i < host.rooms[room_id@].travelers.len()
                ==> #[trigger] host.rooms[room_id@].travelers[i] == id,
    ensures
        ({
            let after = host.room_left(room_id, id);
            &&& after.rooms == host.rooms.remove(room_id@)
            &&& after.events == host.events + seq![
                NetworkEvent::TravelerLeftRoom { traveler_id: id, room_id },
                NetworkEvent::RoomDestroyed { room_id },
            ]
            &&& only_noted(host, after, id, None)
        }),
{
    let after = host.room_left(room_id, id);
    law_first_of_the_others_hosts(host.rooms[room_id@], 0);
    assert(after.events =~= host.events + seq![
        NetworkEvent::TravelerLeftRoom { traveler_id: id, room_id },
        NetworkEvent::RoomDestroyed { room_id },
    ]);
    assert(after.rooms =~= host.rooms.remove(room_id@));
    assert(after.connections.dom() =~= host.connections.dom());
}

/// An arrival is filed under its identifier, unused and from its address, and reported
/// once, in no room. Nothing else changes.
pub proof fn law_arriving(host: HostView, id: ConnectionId, addr: SocketAddr, now: Instant)
    ensures
        ({
            let after = host.arrived(id, addr, now);
            let c = after.connections[id];
            &&& after.connections.dom() == host.connections.dom().insert(id)
            &&& forall|other: ConnectionId|
                other != id && host.connections.contains_key(other) ==> (
                #[trigger] after.connections[other]) == host.connections[other]
            &&& c.id == id && c.addr == addr && c.connected_at == now && c.last_activity == now
            &&& c.last_rate_reset == now
            &&& c.bytes_sent == 0 && c.bytes_received == 0 && c.message_count == 0
            &&& c.room_id is None && !c.authenticated && c.transport == TransportType::Tcp
            &&& after.events == host.events + seq![
                NetworkEvent::TravelerArrived { id, addr, room: None },
            ]
            &&& after.rooms == host.rooms
            &&& after.config == host.config
            &&& after.stats == host.stats
            &&& after.compression == host.compression
        }),
{
    let after = host.arrived(id, addr, now);
    assert(after.connections.dom() =~= host.connections.dom().insert(id));
    assert(after.events =~= host.events + seq![
        NetworkEvent::TravelerArrived { id, addr, room: None },
    ]);
}

/// A departure takes its connection out and is reported once. Rooms keep who travelled in
/// them, and nothing else changes.
pub proof fn law_departing(host: HostView, id: ConnectionId)
    ensures
        ({
            let after = host.departed(id);
            &&& after.connections == host.connections.remove(id)
            &&& after.events == host.events + seq![NetworkEvent::TravelerLeft { id, room: None }]
            &&& after.rooms == host.rooms
            &&& after.config == host.config
            &&& after.stats == host.stats
            &&& after.compression == host.compression
        }),
{
    let after = host.departed(id);
    assert(after.events =~= host.events + seq![NetworkEvent::TravelerLeft { id, room: None }]);
}

/// Traffic is counted of the connection that carried it, where it is known, and of no
/// other; reports, rooms and the rest stay.
pub proof fn law_traffic_is_counted(host: HostView, id: ConnectionId, bytes: u64, now: Instant)
    ensures
        host.connections.contains_key(id) ==> host.counted_received(id, bytes, now).connections
            == host.connections.insert(id, host.connections[id].received(bytes, now)),
        host.connections.contains_key(id) ==> host.counted_sent(id, bytes, now).connections
            == host.connections.insert(id, host.connections[id].sent(bytes, now)),
        !host.connections.contains_key(id) ==> host.counted_received(id, bytes, now) == host,
        !host.connections.contains_key(id) ==> host.counted_sent(id, bytes, now) == host,
        host.counted_received(id, bytes, now).events == host.events,
        host.counted_received(id, bytes, now).rooms == host.rooms,
        host.counted_received(id, bytes, now).config == host.config,
        host.counted_received(id, bytes, now).stats == host.stats,
        host.counted_received(id, bytes, now).compression == host.compression,
        host.counted_sent(id, bytes, now).events == host.events,
        host.counted_sent(id, bytes, now).rooms == host.rooms,
        host.counted_sent(id, bytes, now).config == host.config,
        host.counted_sent(id, bytes, now).stats == host.stats,
        host.counted_sent(id, bytes, now).compression == host.compression,
{
}

/// Data over TCP has one of four outcomes. Beyond the rate limit, that is reported and
/// nothing else happens, whatever the data. What cannot be read changes nothing. A
/// message that is acceptable is reported and its bytes are counted. Any other message is
/// reported as refused and not counted.
pub proof fn law_tcp_outcomes(
    before: HostView,
    after: HostView,
    max_size: usize,
    id: ConnectionId,
    data: Seq<u8>,
    admitted: bool,
    now: Instant,
)
    requires
        tcp_step(before, after, max_size, id, data, admitted, now),
    ensures
        after.rooms == before.rooms,
        after.config == before.config,
        after.stats == before.stats,
        after.compression == before.compression,
        !admitted ==> {
            &&& after.events == before.events + seq![
                NetworkEvent::RateLimitExceeded { connection: id },
            ]
            &&& after.connections == before.connections
        },
        admitted && opened(data, before.compression) is Err ==> after == before,
        admitted ==> (opened(data, before.compression) matches Ok(m) ==> {
            &&& after.events.len() == before.events.len() + 1
            &&& after.events.drop_last() == before.events
            &&& verdict(max_size, m) is Ok ==> {
                &&& after.events.last() matches NetworkEvent::MessageReceived {
                    from,
                    message,
                    transport,
                } && from == id && message@ == m && transport == TransportType::Tcp
                &&& before.connections.contains_key(id) ==> after.connections
                    == before.connections.insert(
                    id,
                    before.connections[id].received(data.len() as u64, now),
                )
                &&& !before.connections.contains_key(id) ==> after.connections
                    == before.connections
            }
            &&& verdict(max_size, m) is Err ==> {
                &&& after.events.last() matches NetworkEvent::ValidationFailed {
                    connection,
                    reason,
                } && connection == id && reason@ == "Message validation failed"@
                &&& after.connections == before.connections
            }
        }),
{
    if !admitted {
        assert(after.events =~= before.events + seq![
            NetworkEvent::RateLimitExceeded { connection: id },
        ]);
    } else if opened(data, before.compression) is Ok {
        assert(after.events.drop_last() =~= before.events);
    }
}

/// Data over UDP has one of two outcomes: a message that is acceptable and within the rate
/// limit is reported, and nothing else ever changes.
pub proof fn law_udp_outcomes(
    before: HostView,
    after: HostView,
    max_size: usize,
    id: ConnectionId,
    data: Seq<u8>,
    admitted: bool,
)
    requires
        udp_step(before, after, max_size, id, data, admitted),
    ensures
        after.connections == before.connections,
        after.rooms == before.rooms,
        after.config == before.config,
        after.stats == before.stats,
        after.compression == before.compression,
        !admitted || opened(data, before.compression) is Err ==> after == before,
        opened(data, before.compression) matches Ok(m) ==> {
            &&& verdict(max_size, m) is Err ==> after == before
            &&& admitted && verdict(max_size, m) is Ok ==> {
                &&& after.events.len() == before.events.len() + 1
                &&& after.events.drop_last() == before.events
                &&& after.events.last() matches NetworkEvent::MessageReceived {
                    from,
                    message,
                    transport,
                } && from == id && message@ == m && transport == TransportType::Udp
            }
        },
{
    if after.events.len() > before.events.len() {
        assert(after.events.drop_last() =~= before.events);
    }
}

/// Creating a room is refused for two reasons: where as many rooms exist as may, there is
/// no place, whatever the name; else where the name is taken. In no other case.
pub proof fn law_why_creating_is_refused(
    host: HostView,
    name: Seq<char>,
    r: Result<(), NetworkError>,
)
    requires
        create_room_refusal(host, name, r),
    ensures
        host.rooms.len() >= host.config.max_rooms ==> r == Err::<(), NetworkError>(
            NetworkError::RoomFull,
        ),
        host.rooms.len() < host.config.max_rooms && host.rooms.contains_key(name) ==> (r matches Err(
            NetworkError::RoomNotFound(text),
        ) && text@ == "Room already exists"@),
        host.rooms.len() < host.config.max_rooms && !host.rooms.contains_key(name) ==> r is Ok,
{
}

/// What is counted besides rooms, connections and uptime is what the host has counted.
pub proof fn law_other_counters_are_the_hosts(host: HostView, uptime: u64)
    ensures
        stats_view(host, uptime).uptime_seconds == uptime,
        stats_view(host, uptime).total_connections == host.stats.total_connections,
        stats_view(host, uptime).messages_sent == host.stats.messages_sent,
        stats_view(host, uptime).messages_received == host.stats.messages_received,
        stats_view(host, uptime).bytes_sent == host.stats.bytes_sent,
        stats_view(host, uptime).bytes_received == host.stats.bytes_received,
        stats_view(host, uptime).errors == host.stats.errors,
        stats_view(host, uptime).rate_limit_violations == host.stats.rate_limit_violations,
        stats_view(host, uptime).validation_failures == host.stats.validation_failures,
        stats_view(host, uptime).host_migrations == host.stats.host_migrations,
{
}

/// A list of connections is complete and holds nothing twice: every connection stands at
/// exactly one place of it, as it is, and nothing else does.
pub proof fn law_lists_of_connections_are_complete(
    list: Seq<ConnectionInfo>,
    connections: Map<ConnectionId, ConnectionInfo>,
)
    requires
        lists_connections(list, connections),
        connections.dom().finite(),
    ensures
        forall|id: ConnectionId| #[trigger]
            connections.contains_key(id) ==> exists|i: int|
                0 <= i < list.len() && #[trigger] list[i] == connections[id] && list[i].id == id,
        forall|i: int|
            0 <= i < list.len() ==> connections.contains_key((#[trigger] list[i]).id)
                && connections[list[i].id] == list[i],
        forall|i: int, j: int|
            0 <= i < j < list.len() ==> (#[trigger] list[i]).id != (#[trigger] list[j]).id,
{
    let ids = Seq::new(list.len(), |i: int| list[i].id);
    assert(ids.no_duplicates());
    lemma_all_listed(ids, connections.dom());
    assert forall|id: ConnectionId| #[trigger] connections.contains_key(id) implies exists|i: int|
        0 <= i < list.len() && #[trigger] list[i] == connections[id] && list[i].id == id by {
        assert(ids.contains(id));
        let i = choose|i: int| 0 <= i < ids.len() && ids[i] == id;
        assert(list[i].id == id);
    }
}

/// The same of a list of rooms.
pub proof fn law_lists_of_rooms_are_complete(list: Seq<Room>, rooms: Map<Seq<char>, RoomView>)
    requires
        lists_rooms(list, rooms),
        rooms.dom().finite(),
    ensures
        forall|name: Seq<char>| #[trigger]
            rooms.contains_key(name) ==> exists|i: int|
                0 <= i < list.len() && (#[trigger] list[i])@ == rooms[name] && list[i]@.id == name,
        forall|i: int|
            0 <= i < list.len() ==> rooms.contains_key((#[trigger] list[i])@.id)
                && rooms[list[i]@.id] == list[i]@,
        forall|i: int, j: int|
            0 <= i < j < list.len() ==> (#[trigger] list[i])@.id != (#[trigger] list[j])@.id,
{
    let names = Seq::new(list.len(), |i: int| list[i]@.id);
    assert(names.no_duplicates());
    lemma_all_listed(names, rooms.dom());
    assert forall|name: Seq<char>| #[trigger] rooms.contains_key(name) implies exists|i: int|
        0 <= i < list.len() && (#[trigger] list[i])@ == rooms[name] && list[i]@.id == name by {
        assert(names.contains(name));
        let i = choose|i: int| 0 <= i < names.len() && names[i] == name;
        assert(list[i]@.id == name);
    }
}

/// As many different elements of a set as it has are all of them.
proof fn lemma_all_listed<A>(list: Seq<A>, all: Set<A>)
    requires
        list.no_duplicates(),
        all.finite(),
        list.len() == all.len(),
        forall|i: int| 0 <= i < list.len() ==> all.contains(#[trigger] list[i]),
    ensures
        forall|a: A| #[trigger] all.contains(a) ==> list.contains(a),
{
    list.unique_seq_to_set();
    assert(list.to_set().subset_of(all)) by {
        assert forall|a: A| #[trigger] list.to_set().contains(a) implies all.contains(a) by {
            let i = choose|i: int| 0 <= i < list.len() && list[i] == a;
            assert(all.contains(list[i]));
        }
    }
    vstd::set_lib::lemma_subset_equality(list.to_set(), all);
    assert forall|a: A| #[trigger] all.contains(a) implies list.contains(a) by {
        assert(list.to_set().contains(a));
    }
}

/// What is kept: the limiter that listeners start from, the size that messages may have,
/// and the clock.
pub proof fn law_checks_are_kept(before: Host, after: Host)
    requires
        after.same_checks(&before),
    ensures
        after.limiter() == before.limiter(),
        after.max_message_size() == before.max_message_size(),
        after.own_clock() == before.own_clock(),
{
}

} // verus!
