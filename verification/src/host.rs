//! The host: who is connected, which rooms there are, and what is reported.

use std::collections::{HashMap, VecDeque};

use vstd::prelude::*;
use vstd::std_specs::iter::IteratorSpec;

use crate::addr::SocketAddr;
use crate::codec::{opened, sends};
use crate::config::{NetworkConfig, NetworkStats, TransportType};
use crate::connection::ConnectionInfo;
use crate::error::NetworkError;
use crate::event::NetworkEvent;
use crate::ids::{is_drawn, is_random_id, new_connection_id, ConnectionId, RoomId};
use crate::message::{Message, MessageView};
use crate::rate_limit::RateLimiter;
use crate::room::{Room, RoomView};
use crate::room_table::{lists_rooms, RoomTable};
use crate::time::{Clock, Instant, NANOS_PER_SECOND};
use crate::validator::{verdict, MessageValidator};

verus! {

/// How many bytes are read from a TCP stream at once.
pub const TCP_BUFFER_SIZE: usize = 8192;

/// How many bytes are read from a UDP socket at once.
pub const UDP_BUFFER_SIZE: usize = 65536;

/// The state of a host as mathematical values.
#[verifier::ext_equal]
pub struct HostView {
    pub config: NetworkConfig,
    pub connections: Map<ConnectionId, ConnectionInfo>,
    pub rooms: Map<Seq<char>, RoomView>,
    pub stats: NetworkStats,
    /// Whether compression is available.
    pub compression: bool,
    /// What has been reported and not yet been taken, in the order of reporting.
    pub events: Seq<NetworkEvent>,
}

impl HostView {
    /// Connections and rooms are filed under their own names; there are no more
    /// rooms than allowed, no room takes more travelers than allowed, none holds
    /// more than it takes, and nobody is twice in one.
    pub open spec fn wf(self) -> bool {
        &&& forall|id: ConnectionId| #[trigger]
            self.connections.contains_key(id) ==> self.connections[id].id == id
        &&& self.connections.dom().finite()
        &&& forall|name: Seq<char>| #[trigger]
            self.rooms.contains_key(name) ==> {
                &&& self.rooms[name].id == name
                &&& self.rooms[name].wf()
                &&& self.rooms[name].max_travelers <= self.config.max_travelers_per_room
            }
        &&& self.rooms.dom().finite()
        &&& self.rooms.len() <= self.config.max_rooms
    }

    /// A host without connections and rooms.
    pub open spec fn fresh(config: NetworkConfig, compression: bool) -> HostView {
        HostView {
            config,
            connections: Map::empty(),
            rooms: Map::empty(),
            stats: NetworkStats::zero(),
            compression,
            events: Seq::empty(),
        }
    }

    /// After one more report.
    pub open spec fn reported(self, event: NetworkEvent) -> HostView {
        HostView { events: self.events.push(event), ..self }
    }

    /// With another note of the room that a connection is in. A connection that
    /// is not known has no such note.
    pub open spec fn placed(self, id: ConnectionId, room_id: Option<RoomId>) -> HostView {
        if self.connections.contains_key(id) {
            HostView {
                connections: self.connections.insert(
                    id,
                    ConnectionInfo { room_id, ..self.connections[id] },
                ),
                ..self
            }
        } else {
            self
        }
    }

    /// After a traveler arrived over TCP.
    pub open spec fn arrived(self, id: ConnectionId, addr: SocketAddr, now: Instant) -> HostView {
        HostView {
            connections: self.connections.insert(id, ConnectionInfo::fresh(id, addr, now)),
            ..self
        }.reported(NetworkEvent::TravelerArrived { id, addr, room: None })
    }

    /// After a traveler's stream ended.
    pub open spec fn departed(self, id: ConnectionId) -> HostView {
        HostView { connections: self.connections.remove(id), ..self }.reported(
            NetworkEvent::TravelerLeft { id, room: None },
        )
    }

    /// After a message of `bytes` bytes came over a connection.
    pub open spec fn counted_received(self, id: ConnectionId, bytes: u64, now: Instant) -> HostView {
        if self.connections.contains_key(id) {
            HostView {
                connections: self.connections.insert(
                    id,
                    self.connections[id].received(bytes, now),
                ),
                ..self
            }
        } else {
            self
        }
    }

    /// After `bytes` bytes were sent over a connection.
    pub open spec fn counted_sent(self, id: ConnectionId, bytes: u64, now: Instant) -> HostView {
        if self.connections.contains_key(id) {
            HostView {
                connections: self.connections.insert(id, self.connections[id].sent(bytes, now)),
                ..self
            }
        } else {
            self
        }
    }

    /// The number of travelers that a new room takes where `wanted` are asked for.
    pub open spec fn room_size(self, wanted: usize) -> usize {
        if wanted <= self.config.max_travelers_per_room {
            wanted
        } else {
            self.config.max_travelers_per_room
        }
    }

    /// After a room was created.
    pub open spec fn room_created(
        self,
        room_id: RoomId,
        host: ConnectionId,
        max_travelers: usize,
        now: Instant,
    ) -> HostView {
        HostView {
            rooms: self.rooms.insert(
                room_id@,
                RoomView::fresh(room_id@, host, now, self.room_size(max_travelers)),
            ),
            ..self
        }.placed(host, Some(room_id)).reported(NetworkEvent::RoomCreated { room_id, host })
    }

    /// After a traveler joined a room.
    pub open spec fn room_joined(self, room_id: RoomId, traveler_id: ConnectionId) -> HostView {
        HostView {
            rooms: self.rooms.insert(room_id@, self.rooms[room_id@].joined(traveler_id)),
            ..self
        }.placed(traveler_id, Some(room_id)).reported(
            NetworkEvent::TravelerJoinedRoom { traveler_id, room_id },
        )
    }

    /// After a traveler left a room: the room passes to another host, or is
    /// destroyed where nobody is left in it.
    pub open spec fn room_left(self, room_id: RoomId, traveler_id: ConnectionId) -> HostView {
        let room = self.rooms[room_id@];
        let gone = self.placed(traveler_id, None).reported(
            NetworkEvent::TravelerLeftRoom { traveler_id, room_id },
        );
        if room.deserted(traveler_id) {
            HostView { rooms: gone.rooms.remove(room_id@), ..gone }.reported(
                NetworkEvent::RoomDestroyed { room_id },
            )
        } else {
            let left = HostView {
                rooms: gone.rooms.insert(room_id@, room.left(traveler_id)),
                ..gone
            };
            if room.migrates(traveler_id) {
                left.reported(
                    NetworkEvent::HostMigrated {
                        old_host: traveler_id,
                        new_host: room.left(traveler_id).host,
                        room_id,
                    },
                )
            } else {
                left
            }
        }
    }
}

/// The event reports the message `m` from `id`.
pub open spec fn reports_message(
    event: NetworkEvent,
    id: ConnectionId,
    m: MessageView,
    via: TransportType,
) -> bool {
    event matches NetworkEvent::MessageReceived { from, message, transport } && from == id
        && message@ == m && transport == via
}

/// The event reports that a message from `id` was not acceptable.
pub open spec fn reports_rejection(event: NetworkEvent, id: ConnectionId) -> bool {
    event matches NetworkEvent::ValidationFailed { connection, reason } && connection == id
        && reason@ == "Message validation failed"@
}

/// What becomes of a host when `data` comes over the TCP connection `id`:
/// - beyond the rate limit, that is reported and the data is dropped;
/// - what is no message is dropped silently;
/// - an acceptable message is reported and counted;
/// - a message that is not acceptable is reported as such.
pub open spec fn tcp_step(
    before: HostView,
    after: HostView,
    max_size: usize,
    id: ConnectionId,
    data: Seq<u8>,
    admitted: bool,
    now: Instant,
) -> bool {
    let event = after.events.last();
    if !admitted {
        after == before.reported(NetworkEvent::RateLimitExceeded { connection: id })
    } else {
        match opened(data, before.compression) {
            Err(_) => after == before,
            Ok(m) => if verdict(max_size, m) is Ok {
                &&& reports_message(event, id, m, TransportType::Tcp)
                &&& after == before.reported(event).counted_received(id, data.len() as u64, now)
            } else {
                &&& reports_rejection(event, id)
                &&& after == before.reported(event)
            },
        }
    }
}

/// What becomes of a host when `data` comes over UDP and is filed under `id`: an
/// acceptable message within the rate limit is reported, all else is dropped.
pub open spec fn udp_step(
    before: HostView,
    after: HostView,
    max_size: usize,
    id: ConnectionId,
    data: Seq<u8>,
    admitted: bool,
) -> bool {
    let event = after.events.last();
    match opened(data, before.compression) {
        Ok(m) => if admitted && verdict(max_size, m) is Ok {
            &&& reports_message(event, id, m, TransportType::Udp)
            &&& after == before.reported(event)
        } else {
            after == before
        },
        Err(_) => after == before,
    }
}

/// What a listener checks incoming data against. Each listener counts for itself.
#[derive(Debug)]
pub struct Gate {
    pub rate_limiter: RateLimiter,
    pub validator: MessageValidator,
}

/// Keeps track of connections and rooms and reports what happens to them.
#[derive(Debug)]
pub struct Host {
    config: NetworkConfig,
    connections: HashMap<ConnectionId, ConnectionInfo>,
    rooms: RoomTable,
    stats: NetworkStats,
    compression: bool,
    events: VecDeque<NetworkEvent>,
    rate_limiter: RateLimiter,
    validator: MessageValidator,
    clock: Clock,
}

impl View for Host {
    type V = HostView;

    closed spec fn view(&self) -> HostView {
        HostView {
            config: self.config,
            connections: self.connections@,
            rooms: self.rooms@,
            stats: self.stats,
            compression: self.compression,
            events: self.events@,
        }
    }
}

impl Host {
    /// The state is consistent.
    pub closed spec fn wf(&self) -> bool {
        &&& self.rooms.wf()
        &&& self@.wf()
    }

    /// The limiter that new listeners start from.
    pub closed spec fn limiter(&self) -> RateLimiter {
        self.rate_limiter
    }

    /// The most bytes of data that a message may carry.
    pub closed spec fn max_message_size(&self) -> usize {
        self.validator.max_size()
    }

    /// The clock by which connections and rooms are timed.
    pub closed spec fn own_clock(&self) -> Clock {
        self.clock
    }

    /// What listeners check against, and the clock, are left as they were.
    pub open spec fn same_checks(&self, other: &Host) -> bool {
        &&& self.limiter() == other.limiter()
        &&& self.max_message_size() == other.max_message_size()
        &&& self.own_clock() == other.own_clock()
    }

    /// A consistent host has a consistent view, so that what is stated of views
    /// can be used of it.
    pub proof fn lemma_wf(&self)
        requires
            self.wf(),
        ensures
            self@.wf(),
    {
    }

    /// A host without connections and rooms, in a build without compression.
    pub fn new(config: NetworkConfig) -> (h: Host)
        ensures
            h.wf(),
            h@ == HostView::fresh(config, false),
            h.limiter().limit() == config.rate_limit_per_second,
            h.limiter().windows() == Map::<ConnectionId, (u32, Instant)>::empty(),
            h.max_message_size() == config.max_message_size,
            h.own_clock().starts_now(),
            h.limiter().own_clock().starts_now(),
    {
        Host::new_with(config, false)
    }

    /// A host without connections and rooms, in a build with or without compression.
    pub fn new_with(config: NetworkConfig, compression: bool) -> (h: Host)
        ensures
            h.wf(),
            h@ == HostView::fresh(config, compression),
            h.limiter().limit() == config.rate_limit_per_second,
            h.limiter().windows() == Map::<ConnectionId, (u32, Instant)>::empty(),
            h.max_message_size() == config.max_message_size,
            h.own_clock().starts_now(),
            h.limiter().own_clock().starts_now(),
    {
        Host {
            config,
            connections: HashMap::new(),
            rooms: RoomTable::new(),
            stats: NetworkStats::default(),
            compression,
            events: VecDeque::new(),
            rate_limiter: RateLimiter::new(config.rate_limit_per_second),
            validator: MessageValidator::new(config.max_message_size),
            clock: Clock::start(),
        }
    }

    /// What a new listener checks incoming data against.
    pub fn open_gate(&self) -> (g: Gate)
        ensures
            g.rate_limiter.limit() == self.limiter().limit(),
            g.rate_limiter.windows() == self.limiter().windows(),
            g.rate_limiter.own_clock() == self.limiter().own_clock(),
            g.validator.max_size() == self.max_message_size(),
    {
        Gate { rate_limiter: self.rate_limiter.clone(), validator: self.validator }
    }

    /// Takes the oldest report, where there is one.
    pub fn next_event(&mut self) -> (event: Option<NetworkEvent>)
        requires
            old(self).wf(),
        ensures
            final(self).wf(),
            final(self).same_checks(old(self)),
            match event {
                Some(e) => old(self)@.events.len() > 0 && e == old(self)@.events[0]
                    && final(self)@ == (HostView {
                    events: old(self)@.events.skip(1),
                    ..old(self)@
                }),
                None => old(self)@.events.len() == 0 && final(self)@ == old(self)@,
            },
    {
        let event = self.events.pop_front();
        assert(event is Some ==> self@.events =~= old(self)@.events.skip(1));
        event
    }

    /// Sets the note of the room that a connection is in, where it is known.
    fn place(&mut self, id: ConnectionId, room_id: Option<RoomId>)
        requires
            old(self).wf(),
        ensures
            final(self).wf(),
            final(self).same_checks(old(self)),
            final(self)@ == old(self)@.placed(id, room_id),
    {
        let ghost before = self@;
        if let Some(info) = self.connections.remove(&id) {
            let _ = self.connections.insert(id, ConnectionInfo { room_id, ..info });
        }
        assert(self@.connections =~= before.placed(id, room_id).connections);
    }

    /// Reports an event.
    fn report(&mut self, event: NetworkEvent)
        requires
            old(self).wf(),
        ensures
            final(self).wf(),
            final(self).same_checks(old(self)),
            final(self)@ == old(self)@.reported(event),
    {
        self.events.push_back(event);
    }

    /// Takes in a TCP connection from `addr` and gives it an identifier.
    pub fn traveler_arrived(&mut self, addr: SocketAddr) -> (id: ConnectionId)
        requires
            old(self).wf(),
        ensures
            final(self).wf(),
            final(self).same_checks(old(self)),
            is_drawn(id),
            is_random_id(id),
            exists|now: Instant|
                old(self).own_clock().reads(now) && final(self)@ == #[trigger] old(self)@.arrived(
                    id,
                    addr,
                    now,
                ),
    {
        let id = new_connection_id();
        let now = self.clock.now();
        self.traveler_arrived_at(id, addr, now);
        id
    }

    /// Takes in the TCP connection `id` from `addr`, made at `now`.
    pub fn traveler_arrived_at(&mut self, id: ConnectionId, addr: SocketAddr, now: Instant)
        requires
            old(self).wf(),
        ensures
            final(self).wf(),
            final(self).same_checks(old(self)),
            final(self)@ == old(self)@.arrived(id, addr, now),
    {
        let _ = self.connections.insert(id, ConnectionInfo::new(id, addr, now));
        self.report(NetworkEvent::TravelerArrived { id, addr, room: None });
    }

    /// Drops a connection whose stream has ended.
    pub fn traveler_left(&mut self, id: ConnectionId)
        requires
            old(self).wf(),
        ensures
            final(self).wf(),
            final(self).same_checks(old(self)),
            final(self)@ == old(self)@.departed(id),
    {
        let _ = self.connections.remove(&id);
        self.report(NetworkEvent::TravelerLeft { id, room: None });
    }

    /// Takes in data that has just come over the TCP connection `id`.
    pub fn tcp_received(&mut self, gate: &mut Gate, id: ConnectionId, data: &[u8])
        requires
            old(self).wf(),
        ensures
            final(self).wf(),
            final(self).same_checks(old(self)),
            final(gate).validator == old(gate).validator,
            final(gate).rate_limiter.limit() == old(gate).rate_limiter.limit(),
            final(gate).rate_limiter.own_clock() == old(gate).rate_limiter.own_clock(),
            exists|counted: Instant, now: Instant|
                old(gate).rate_limiter.own_clock().reads(counted) && old(self).own_clock().reads(
                    now,
                ) && final(gate).rate_limiter.windows() == old(gate).rate_limiter.windows_with(
                    id,
                    counted,
                ) && #[trigger] tcp_step(
                    old(self)@,
                    final(self)@,
                    old(gate).validator.max_size(),
                    id,
                    data@,
                    old(gate).rate_limiter.admits(id, counted),
                    now,
                ),
    {
        let admitted = gate.rate_limiter.check(id);
        let now = self.clock.now();
        self.tcp_received_at(&gate.validator, id, data, admitted, now);
        proof {
            let counted = choose|counted: Instant|
                old(gate).rate_limiter.own_clock().reads(counted)
                    && admitted == #[trigger] old(gate).rate_limiter.admits(id, counted) && gate.rate_limiter.windows() == old(gate).rate_limiter.windows_with(
                    id,
                    counted,
                );
            assert(tcp_step(
                old(self)@,
                self@,
                old(gate).validator.max_size(),
                id,
                data@,
                old(gate).rate_limiter.admits(id, counted),
                now,
            ));
        }
    }

    /// Takes in data that came over the TCP connection `id` at `now` and was, or
    /// was not, within the rate limit.
    pub fn tcp_received_at(
        &mut self,
        validator: &MessageValidator,
        id: ConnectionId,
        data: &[u8],
        admitted: bool,
        now: Instant,
    )
        requires
            old(self).wf(),
        ensures
            final(self).wf(),
            final(self).same_checks(old(self)),
            tcp_step(
                old(self)@,
                final(self)@,
                validator.max_size(),
                id,
                data@,
                admitted,
                now,
            ),
    {
        let ghost before = self@;
        if !admitted {
            self.report(NetworkEvent::RateLimitExceeded { connection: id });
            return;
        }
        let message = match Message::deserialize_with(data, self.compression) {
            Ok(message) => message,
            Err(_) => {
                return;
            },
        };
        match validator.validate(&message) {
            Ok(_) => {
                self.report(
                    NetworkEvent::MessageReceived {
                        from: id,
                        message,
                        transport: TransportType::Tcp,
                    },
                );
                let ghost reported = self@;
                let bytes = data.len() as u64;
                if let Some(info) = self.connections.remove(&id) {
                    let counted = ConnectionInfo {
                        bytes_received: info.bytes_received.wrapping_add(bytes),
                        last_activity: now,
                        message_count: info.message_count.wrapping_add(1),
                        ..info
                    };
                    let _ = self.connections.insert(id, counted);
                }
                assert(self@.connections =~= reported.counted_received(id, bytes, now).connections);
                assert(self@ =~= before.reported(self@.events.last()).counted_received(
                    id,
                    bytes,
                    now,
                ));
            },
            Err(_) => {
                self.report(
                    NetworkEvent::ValidationFailed {
                        connection: id,
                        reason: "Message validation failed".to_owned(),
                    },
                );
            },
        }
    }

    /// Takes in a datagram that has just come. Each one counts as a connection of its own.
    pub fn udp_received(&mut self, gate: &mut Gate, data: &[u8])
        requires
            old(self).wf(),
        ensures
            final(self).wf(),
            final(self).same_checks(old(self)),
            final(gate).validator == old(gate).validator,
            final(gate).rate_limiter.limit() == old(gate).rate_limiter.limit(),
            final(gate).rate_limiter.own_clock() == old(gate).rate_limiter.own_clock(),
            opened(data@, old(self)@.compression) is Err ==> final(self)@ == old(self)@
                && final(gate).rate_limiter.windows() == old(gate).rate_limiter.windows(),
            opened(data@, old(self)@.compression) is Ok ==> exists|id: ConnectionId, counted: Instant|
                is_drawn(id) && is_random_id(id) && old(gate).rate_limiter.own_clock().reads(counted)
                    && final(gate).rate_limiter.windows() == old(gate).rate_limiter.windows_with(
                    id,
                    counted,
                ) && udp_step(
                    old(self)@,
                    final(self)@,
                    old(gate).validator.max_size(),
                    id,
                    data@,
                    #[trigger] old(gate).rate_limiter.admits(id, counted),
                ),
    {
        match Message::deserialize_with(data, self.compression) {
            Ok(message) => {
                let id = new_connection_id();
                let admitted = gate.rate_limiter.check(id);
                self.udp_message(&gate.validator, id, message, admitted);
            },
            Err(_) => {},
        }
    }

    /// Takes in a message that came over UDP, is filed under `id`, and was, or
    /// was not, within the rate limit.
    pub fn udp_message(
        &mut self,
        validator: &MessageValidator,
        id: ConnectionId,
        message: Message,
        admitted: bool,
    )
        requires
            old(self).wf(),
        ensures
            final(self).wf(),
            final(self).same_checks(old(self)),
            final(self)@ == (if admitted && verdict(validator.max_size(), message@) is Ok {
                old(self)@.reported(
                    NetworkEvent::MessageReceived {
                        from: id,
                        message,
                        transport: TransportType::Udp,
                    },
                )
            } else {
                old(self)@
            }),
    {
        if admitted {
            match validator.validate(&message) {
                Ok(_) => {
                    self.report(
                        NetworkEvent::MessageReceived {
                            from: id,
                            message,
                            transport: TransportType::Udp,
                        },
                    );
                },
                Err(_) => {},
            }
        }
    }

    /// The bytes to write to the stream of a traveler in order to send it a message.
    pub fn send_to_traveler(&self, traveler_id: ConnectionId, message: &Message) -> (r: Result<
        Vec<u8>,
        NetworkError,
    >)
        ensures
            self@.connections.contains_key(traveler_id) ==> sends(
                r,
                message@,
                self@.compression,
            ),
            !self@.connections.contains_key(traveler_id) ==> r == Err::<Vec<u8>, NetworkError>(
                NetworkError::Disconnected,
            ),
    {
        if self.connections.contains_key(&traveler_id) {
            message.serialize_with(self.compression)
        } else {
            Err(NetworkError::Disconnected)
        }
    }

    /// Takes note of how writing `bytes` bytes to the stream of a traveler has just ended.
    pub fn sent_to_traveler(
        &mut self,
        traveler_id: ConnectionId,
        bytes: usize,
        written: Result<(), String>,
    ) -> (r: Result<(), NetworkError>)
        requires
            old(self).wf(),
        ensures
            final(self).wf(),
            final(self).same_checks(old(self)),
            match written {
                Ok(_) => r is Ok && exists|now: Instant|
                    old(self).own_clock().reads(now) && final(self)@ == #[trigger] old(self)@.counted_sent(
                        traveler_id,
                        bytes as u64,
                        now,
                    ),
                Err(e) => r == Err::<(), NetworkError>(NetworkError::Io(e)) && final(self)@
                    == old(self)@,
            },
    {
        let now = self.clock.now();
        self.sent_to_traveler_at(traveler_id, bytes, written, now)
    }

    /// Takes note of how writing `bytes` bytes to the stream of a traveler ended at `now`.
    pub fn sent_to_traveler_at(
        &mut self,
        traveler_id: ConnectionId,
        bytes: usize,
        written: Result<(), String>,
        now: Instant,
    ) -> (r: Result<(), NetworkError>)
        requires
            old(self).wf(),
        ensures
            final(self).wf(),
            final(self).same_checks(old(self)),
            match written {
                Ok(_) => r is Ok && final(self)@ == old(self)@.counted_sent(
                    traveler_id,
                    bytes as u64,
                    now,
                ),
                Err(e) => r == Err::<(), NetworkError>(NetworkError::Io(e)) && final(self)@
                    == old(self)@,
            },
    {
        match written {
            Err(e) => Err(NetworkError::Io(e)),
            Ok(_) => {
                let ghost before = self@;
                if let Some(info) = self.connections.remove(&traveler_id) {
                    let counted = ConnectionInfo {
                        bytes_sent: info.bytes_sent.wrapping_add(bytes as u64),
                        last_activity: now,
                        ..info
                    };
                    let _ = self.connections.insert(traveler_id, counted);
                }
                assert(self@.connections =~= before.counted_sent(
                    traveler_id,
                    bytes as u64,
                    now,
                ).connections);
                Ok(())
            },
        }
    }

    /// Creates a room now, hosted by `host_id`.
    pub fn create_room(
        &mut self,
        room_id: RoomId,
        host_id: ConnectionId,
        max_travelers: usize,
    ) -> (r: Result<(), NetworkError>)
        requires
            old(self).wf(),
        ensures
            final(self).wf(),
            final(self).same_checks(old(self)),
            create_room_refusal(old(self)@, room_id@, r),
            r is Err ==> final(self)@ == old(self)@,
            r is Ok ==> exists|now: Instant|
                old(self).own_clock().reads(now) && final(self)@ == #[trigger] old(self)@.room_created(
                    room_id,
                    host_id,
                    max_travelers,
                    now,
                ),
    {
        let now = self.clock.now();
        self.create_room_at(room_id, host_id, max_travelers, now)
    }

    /// Creates a room at `now`, hosted by `host_id`.
    pub fn create_room_at(
        &mut self,
        room_id: RoomId,
        host_id: ConnectionId,
        max_travelers: usize,
        now: Instant,
    ) -> (r: Result<(), NetworkError>)
        requires
            old(self).wf(),
        ensures
            final(self).wf(),
            final(self).same_checks(old(self)),
            create_room_refusal(old(self)@, room_id@, r),
            r is Err ==> final(self)@ == old(self)@,
            r is Ok ==> final(self)@ == old(self)@.room_created(
                room_id,
                host_id,
                max_travelers,
                now,
            ),
    {
        if self.rooms.len() >= self.config.max_rooms {
            return Err(NetworkError::RoomFull);
        }
        if self.rooms.get(&room_id).is_some() {
            return Err(NetworkError::RoomNotFound("Room already exists".to_owned()));
        }
        let size = if max_travelers <= self.config.max_travelers_per_room {
            max_travelers
        } else {
            self.config.max_travelers_per_room
        };
        let room = Room::new(room_id.clone(), host_id, now, size);
        self.rooms.insert(room);
        self.place(host_id, Some(room_id.clone()));
        self.report(NetworkEvent::RoomCreated { room_id, host: host_id });
        Ok(())
    }

    /// Lets a traveler into a room.
    pub fn join_room(&mut self, room_id: &RoomId, traveler_id: ConnectionId) -> (r: Result<
        (),
        NetworkError,
    >)
        requires
            old(self).wf(),
        ensures
            final(self).wf(),
            final(self).same_checks(old(self)),
            r == (if !old(self)@.rooms.contains_key(room_id@) {
                Err(NetworkError::RoomNotFound(*room_id))
            } else if old(self)@.rooms[room_id@].full() {
                Err(NetworkError::RoomFull)
            } else {
                Ok(())
            }),
            r is Err ==> final(self)@ == old(self)@,
            r is Ok ==> final(self)@ == old(self)@.room_joined(*room_id, traveler_id),
    {
        let full = match self.rooms.get(room_id) {
            Some(room) => room.is_full(),
            None => {
                return Err(NetworkError::RoomNotFound(room_id.clone()));
            },
        };
        if full {
            return Err(NetworkError::RoomFull);
        }
        self.rooms.add_traveler(room_id, traveler_id);
        self.place(traveler_id, Some(room_id.clone()));
        self.report(
            NetworkEvent::TravelerJoinedRoom { traveler_id, room_id: room_id.clone() },
        );
        Ok(())
    }

    /// Takes a traveler out of a room. Where the host leaves, the room passes to
    /// the traveler who has been in it longest, or is destroyed where there is none.
    pub fn leave_room(&mut self, room_id: &RoomId, traveler_id: ConnectionId) -> (r: Result<
        (),
        NetworkError,
    >)
        requires
            old(self).wf(),
        ensures
            final(self).wf(),
            final(self).same_checks(old(self)),
            r == (if old(self)@.rooms.contains_key(room_id@) {
                Ok(())
            } else {
                Err(NetworkError::RoomNotFound(*room_id))
            }),
            r is Err ==> final(self)@ == old(self)@,
            r is Ok ==> final(self)@ == old(self)@.room_left(*room_id, traveler_id),
    {
        if self.rooms.get(room_id).is_none() {
            return Err(NetworkError::RoomNotFound(room_id.clone()));
        }
        let ghost before = self@;
        let new_host = self.rooms.remove_traveler(room_id, traveler_id);
        self.place(traveler_id, None);
        self.report(NetworkEvent::TravelerLeftRoom { traveler_id, room_id: room_id.clone() });
        if let Some(new_host) = new_host {
            self.report(
                NetworkEvent::HostMigrated {
                    old_host: traveler_id,
                    new_host,
                    room_id: room_id.clone(),
                },
            );
        }
        let deserted = match self.rooms.get(room_id) {
            Some(room) => room.travelers.is_empty() && room.host == traveler_id,
            None => false,
        };
        if deserted {
            self.rooms.remove(room_id);
            self.report(NetworkEvent::RoomDestroyed { room_id: room_id.clone() });
        }
        assert(self@.rooms =~= before.room_left(*room_id, traveler_id).rooms);
        assert(self@ =~= before.room_left(*room_id, traveler_id));
        Ok(())
    }

    /// Whom a message to all travelers goes to: every connection once, in no particular order.
    pub fn broadcast_to_all(&self) -> (recipients: Vec<ConnectionId>)
        ensures
            recipients@.no_duplicates(),
            recipients@.to_set() == self@.connections.dom(),
            recipients@.len() == self@.connections.len(),
    {
        connection_ids(&self.connections)
    }

    /// Whom a message to a room goes to: its travelers in the order in which they
    /// joined, then its host. To a room that does not exist, nobody.
    pub fn broadcast_to_room(&self, room_id: &RoomId) -> (recipients: Vec<ConnectionId>)
        requires
            self.wf(),
        ensures
            recipients@ == (if self@.rooms.contains_key(room_id@) {
                self@.rooms[room_id@].travelers.push(self@.rooms[room_id@].host)
            } else {
                Seq::empty()
            }),
    {
        match self.rooms.get(room_id) {
            Some(room) => {
                let mut recipients = room.travelers.clone();
                assert(recipients@ =~= room.travelers@);
                recipients.push(room.host);
                recipients
            },
            None => Vec::new(),
        }
    }

    /// The counters at present.
    pub fn stats(&self) -> (s: NetworkStats)
        requires
            self.wf(),
        ensures
            s == stats_view(self@, s.uptime_seconds),
            exists|t: Instant| #[trigger]
                self.own_clock().reads(t) && s.uptime_seconds == t.nanos / NANOS_PER_SECOND,
            s.active_connections == self@.connections.len(),
            s.active_rooms == self@.rooms.len(),
    {
        assert(self.own_clock() == self.clock);
        let uptime = self.clock.uptime_seconds();
        self.stats_at(uptime)
    }

    /// The counters after the host has been up for `uptime_seconds`.
    pub fn stats_at(&self, uptime_seconds: u64) -> (s: NetworkStats)
        requires
            self.wf(),
        ensures
            s == stats_view(self@, uptime_seconds),
            s.active_connections == self@.connections.len(),
            s.active_rooms == self@.rooms.len(),
    {
        NetworkStats {
            active_connections: self.connections.len(),
            active_rooms: self.rooms.len(),
            uptime_seconds,
            ..self.stats
        }
    }

    /// All rooms, each once, in no particular order.
    pub fn rooms(&self) -> (v: Vec<Room>)
        requires
            self.wf(),
        ensures
            lists_rooms(v@, self@.rooms),
    {
        self.rooms.to_vec()
    }

    /// All connections, each once, in no particular order.
    pub fn connections(&self) -> (v: Vec<ConnectionInfo>)
        requires
            self.wf(),
        ensures
            lists_connections(v@, self@.connections),
    {
        list_connections(&self.connections)
    }
}

/// What the counters of a host say after it has been up for `uptime_seconds`.
pub open spec fn stats_view(host: HostView, uptime_seconds: u64) -> NetworkStats {
    NetworkStats {
        active_connections: host.connections.len() as usize,
        active_rooms: host.rooms.len() as usize,
        uptime_seconds,
        ..host.stats
    }
}

/// The list holds each of the connections once, and nothing else.
pub open spec fn lists_connections(
    list: Seq<ConnectionInfo>,
    connections: Map<ConnectionId, ConnectionInfo>,
) -> bool {
    &&& list.len() == connections.len()
    &&& forall|i: int|
        0 <= i < list.len() ==> connections.contains_key((#[trigger] list[i]).id) && list[i]
            == connections[list[i].id]
    &&& forall|i: int, j: int|
        0 <= i < list.len() && 0 <= j < list.len() && i != j ==> (#[trigger] list[i]).id != (
        #[trigger] list[j]).id
}

/// The identifiers of the connections, each once.
pub(crate) fn connection_ids(connections: &HashMap<ConnectionId, ConnectionInfo>) -> (ids: Vec<
    ConnectionId,
>)
    ensures
        ids@.no_duplicates(),
        ids@.to_set() == connections@.dom(),
        ids@.len() == connections@.len(),
{
    let mut ids: Vec<ConnectionId> = Vec::new();
    let ghost all = connections.keys().remaining().unref();
    for id in iter: connections.keys()
        invariant
            iter.seq().unref() == all,
            ids@ == all.take(iter.index() as int),
    {
        ids.push(*id);
        assert(ids@ =~= all.take(iter.index() + 1));
    }
    assert(ids@ =~= all);
    ids
}

/// The connections, each once.
pub(crate) fn list_connections(connections: &HashMap<ConnectionId, ConnectionInfo>) -> (list: Vec<
    ConnectionInfo,
>)
    requires
        forall|id: ConnectionId| #[trigger]
            connections@.contains_key(id) ==> connections@[id].id == id,
    ensures
        lists_connections(list@, connections@),
{
    let ids = connection_ids(connections);
    let mut list: Vec<ConnectionInfo> = Vec::new();
    let mut i: usize = 0;
    while i < ids.len()
        invariant
            i <= ids.len(),
            ids@.to_set() == connections@.dom(),
            list@.len() == i,
            forall|j: int| 0 <= j < i ==> (#[trigger] list@[j]) == connections@[ids@[j]],
        decreases ids.len() - i,
    {
        let id = ids[i];
        assert(ids@.to_set().contains(ids@[i as int]));
        if let Some(info) = connections.get(&id) {
            list.push(info.clone());
        }
        i += 1;
    }
    assert forall|j: int| 0 <= j < list@.len() implies connections@.contains_key(
        (#[trigger] list@[j]).id,
    ) && list@[j] == connections@[list@[j].id] && list@[j].id == ids@[j] by {
        assert(ids@.to_set().contains(ids@[j]));
        assert(connections@.contains_key(ids@[j]));
    }
    list
}

/// Whether `r` is right to refuse, or not to refuse, to create a room of this name.
pub open spec fn create_room_refusal(
    host: HostView,
    name: Seq<char>,
    r: Result<(), NetworkError>,
) -> bool {
    if host.rooms.len() >= host.config.max_rooms {
        r == Err::<(), NetworkError>(NetworkError::RoomFull)
    } else if host.rooms.contains_key(name) {
        r matches Err(NetworkError::RoomNotFound(text)) && text@ == "Room already exists"@
    } else {
        r is Ok
    }
}

} // verus!
