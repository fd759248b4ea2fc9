//! The traveler: one end of a connection to a host.
//!
//! A traveler's sockets are driven from outside. What has to be written is handed
//! out as bytes, and how the writing ended is handed back.

use std::collections::VecDeque;

use bytes::Bytes;
use vstd::prelude::*;
use vstd::utf8::encode_utf8;

use crate::addr::SocketAddr;
use crate::codec::{carries, fresh, law_codec_round_trip, opened, sends};
use crate::config::TransportType;
use crate::error::NetworkError;
use crate::event::NetworkEvent;
use crate::host::reports_message;
use crate::ids::{is_drawn, is_random_id, new_connection_id, ConnectionId, RoomId};
use crate::message::{Message, MessagePriority, MessageType, MessageTypeView, MessageView};
use crate::payload::{bytes_from_text, contents};
use crate::text::{decimal, decimal_text, law_decimal_stands_for_its_number, number};
use crate::time::{is_system_reading, timestamp_of};
use crate::wire::wire_bytes;

verus! {

/// The state of a traveler as mathematical values.
#[verifier::ext_equal]
pub struct TravelerView {
    pub connection_id: Option<ConnectionId>,
    /// Whether there is a TCP stream to the host.
    pub tcp: bool,
    /// Whether there is a UDP socket towards the host.
    pub udp: bool,
    pub host_addr: Option<SocketAddr>,
    pub current_room: Option<RoomId>,
    pub authenticated: bool,
    /// Whether compression is available.
    pub compression: bool,
    /// What has been reported and not yet been taken, in the order of reporting.
    pub events: Seq<NetworkEvent>,
}

impl TravelerView {
    /// A traveler that is not connected.
    pub open spec fn offline(compression: bool, events: Seq<NetworkEvent>) -> TravelerView {
        TravelerView {
            connection_id: None,
            tcp: false,
            udp: false,
            host_addr: None,
            current_room: None,
            authenticated: false,
            compression,
            events,
        }
    }

    /// Connected to `addr` over TCP.
    pub open spec fn via_tcp(self, id: ConnectionId, addr: SocketAddr) -> TravelerView {
        TravelerView { connection_id: Some(id), tcp: true, host_addr: Some(addr), ..self }
    }

    /// Connected to `addr` over UDP.
    pub open spec fn via_udp(self, id: ConnectionId, addr: SocketAddr) -> TravelerView {
        TravelerView { connection_id: Some(id), udp: true, host_addr: Some(addr), ..self }
    }

    /// In a room, or in none.
    pub open spec fn placed(self, room: Option<RoomId>) -> TravelerView {
        TravelerView { current_room: room, ..self }
    }
}

/// The bytes are a message of the given type and content, with a random
/// identifier and otherwise as new messages are.
pub open spec fn is_request(bytes: Seq<u8>, msg_type: MessageTypeView, data: Seq<u8>) -> bool {
    exists|id: u128, reading: Option<u128>|
        is_drawn(id) && is_random_id(id) && is_system_reading(reading) && bytes == wire_bytes(
            #[trigger] fresh(id, timestamp_of(reading), msg_type, data),
        )
}

/// `r` holds such a message where there is a TCP stream, and says that there is
/// no connection where there is none.
pub open spec fn requests(
    r: Result<Vec<u8>, NetworkError>,
    tcp: bool,
    msg_type: MessageTypeView,
    data: Seq<u8>,
) -> bool {
    if tcp {
        r matches Ok(bytes) && is_request(bytes@, msg_type, data)
    } else {
        r == Err::<Vec<u8>, NetworkError>(NetworkError::Disconnected)
    }
}

/// What a request to create a room says: the room's name, a colon and the number of travelers.
pub open spec fn room_request(room_id: Seq<char>, max_travelers: usize) -> Seq<char> {
    room_id + ":"@ + decimal(max_travelers as nat)
}

/// What becomes of a traveler when `data` comes over the TCP stream that was
/// opened under `from`: a message is reported, all else is dropped.
pub open spec fn hears(
    before: TravelerView,
    after: TravelerView,
    from: ConnectionId,
    data: Seq<u8>,
) -> bool {
    let event = after.events.last();
    match opened(data, before.compression) {
        Ok(m) => {
            &&& reports_message(event, from, m, TransportType::Tcp)
            &&& after == (TravelerView { events: before.events.push(event), ..before })
        },
        Err(_) => after == before,
    }
}

/// What is to be done next in order to disconnect.
#[derive(Debug)]
pub enum DisconnectStep {
    /// Write these bytes to the TCP stream and go on with [`Traveler::disconnect_left`].
    SendLeave(Vec<u8>),
    /// Write these bytes to the TCP stream and go on with [`Traveler::disconnect_notified`].
    SendNotice(Vec<u8>),
    /// Nothing. The sockets are to be closed where this is no error.
    Done(Result<(), NetworkError>),
}

/// What `step` asks for is right once the room has been left: to tell the host
/// where there is a TCP stream, else to be done and offline.
pub open spec fn takes_leave(
    before: TravelerView,
    after: TravelerView,
    step: DisconnectStep,
) -> bool {
    if before.tcp {
        &&& step matches DisconnectStep::SendNotice(bytes)
        &&& is_request(bytes@, MessageTypeView::Disconnect, Seq::empty())
        &&& after == before
    } else {
        &&& step matches DisconnectStep::Done(Ok(_))
        &&& after == TravelerView::offline(before.compression, before.events)
    }
}

/// One end of a connection to a host.
#[derive(Debug)]
pub struct Traveler {
    connection_id: Option<ConnectionId>,
    tcp: bool,
    udp: bool,
    events: VecDeque<NetworkEvent>,
    host_addr: Option<SocketAddr>,
    current_room: Option<RoomId>,
    authenticated: bool,
    compression: bool,
}

impl View for Traveler {
    type V = TravelerView;

    closed spec fn view(&self) -> TravelerView {
        TravelerView {
            connection_id: self.connection_id,
            tcp: self.tcp,
            udp: self.udp,
            host_addr: self.host_addr,
            current_room: self.current_room,
            authenticated: self.authenticated,
            compression: self.compression,
            events: self.events@,
        }
    }
}

/// Writing failed where its outcome is an error.
fn written_ok(written: Result<(), String>) -> (r: Result<(), NetworkError>)
    ensures
        r == (match written {
            Ok(_) => Ok(()),
            Err(e) => Err(NetworkError::Io(e)),
        }),
{
    match written {
        Ok(_) => Ok(()),
        Err(e) => Err(NetworkError::Io(e)),
    }
}

impl Traveler {
    /// A traveler that is not connected, in a build without compression.
    pub fn new() -> (t: Traveler)
        ensures
            t@ == TravelerView::offline(false, Seq::empty()),
    {
        Traveler::new_with(false)
    }

    /// A traveler that is not connected, in a build with or without compression.
    pub fn new_with(compression: bool) -> (t: Traveler)
        ensures
            t@ == TravelerView::offline(compression, Seq::empty()),
    {
        Traveler {
            connection_id: None,
            tcp: false,
            udp: false,
            events: VecDeque::new(),
            host_addr: None,
            current_room: None,
            authenticated: false,
            compression,
        }
    }

    /// Takes note of how connecting to `addr` over TCP ended. From then on
    /// messages can be sent over the stream while it is being read from.
    pub fn travel_to_tcp(&mut self, addr: SocketAddr, connected: Result<(), String>) -> (r: Result<
        (),
        NetworkError,
    >)
        ensures
            match connected {
                Ok(_) => r is Ok && exists|id: ConnectionId|
                    is_drawn(id) && is_random_id(id) && final(self)@ == #[trigger] old(self)@.via_tcp(id, addr),
                Err(e) => r == Err::<(), NetworkError>(NetworkError::ConnectionFailed(e))
                    && final(self)@ == old(self)@,
            },
    {
        let id = new_connection_id();
        self.travel_to_tcp_as(id, addr, connected)
    }

    /// Takes note of how connecting to `addr` over TCP ended, under the identifier `id`.
    pub fn travel_to_tcp_as(
        &mut self,
        id: ConnectionId,
        addr: SocketAddr,
        connected: Result<(), String>,
    ) -> (r: Result<(), NetworkError>)
        ensures
            match connected {
                Ok(_) => r is Ok && final(self)@ == old(self)@.via_tcp(id, addr),
                Err(e) => r == Err::<(), NetworkError>(NetworkError::ConnectionFailed(e))
                    && final(self)@ == old(self)@,
            },
    {
        match connected {
            Ok(_) => {
                self.connection_id = Some(id);
                self.tcp = true;
                self.host_addr = Some(addr);
                Ok(())
            },
            Err(e) => Err(NetworkError::ConnectionFailed(e)),
        }
    }

    /// Takes note of how connecting to `addr` over UDP ended.
    pub fn travel_to_udp(&mut self, addr: SocketAddr, connected: Result<(), String>) -> (r: Result<
        (),
        NetworkError,
    >)
        ensures
            match connected {
                Ok(_) => r is Ok && exists|id: ConnectionId|
                    is_drawn(id) && is_random_id(id) && final(self)@ == #[trigger] old(self)@.via_udp(id, addr),
                Err(e) => r == Err::<(), NetworkError>(NetworkError::ConnectionFailed(e))
                    && final(self)@ == old(self)@,
            },
    {
        let id = new_connection_id();
        self.travel_to_udp_as(id, addr, connected)
    }

    /// Takes note of how connecting to `addr` over UDP ended, under the identifier `id`.
    pub fn travel_to_udp_as(
        &mut self,
        id: ConnectionId,
        addr: SocketAddr,
        connected: Result<(), String>,
    ) -> (r: Result<(), NetworkError>)
        ensures
            match connected {
                Ok(_) => r is Ok && final(self)@ == old(self)@.via_udp(id, addr),
                Err(e) => r == Err::<(), NetworkError>(NetworkError::ConnectionFailed(e))
                    && final(self)@ == old(self)@,
            },
    {
        match connected {
            Ok(_) => {
                self.connection_id = Some(id);
                self.udp = true;
                self.host_addr = Some(addr);
                Ok(())
            },
            Err(e) => Err(NetworkError::ConnectionFailed(e)),
        }
    }

    /// Takes in data that came over the TCP stream, which was opened under the
    /// identifier `from`. A message is reported, all else is dropped.
    pub fn tcp_received(&mut self, from: ConnectionId, data: &[u8])
        ensures
            hears(old(self)@, final(self)@, from, data@),
    {
        match Message::deserialize_with(data, self.compression) {
            Ok(message) => {
                self.events.push_back(
                    NetworkEvent::MessageReceived { from, message, transport: TransportType::Tcp },
                );
            },
            Err(_) => {},
        }
    }

    /// The bytes to write to the TCP stream in order to send a message.
    pub fn send_tcp(&self, message: &Message) -> (r: Result<Vec<u8>, NetworkError>)
        ensures
            self@.tcp ==> sends(r, message@, self@.compression),
            !self@.tcp ==> r == Err::<Vec<u8>, NetworkError>(NetworkError::Disconnected),
    {
        if self.tcp {
            message.serialize_with(self.compression)
        } else {
            Err(NetworkError::Disconnected)
        }
    }

    /// The bytes to send over the UDP socket in order to send a message.
    pub fn send_udp(&self, message: &Message) -> (r: Result<Vec<u8>, NetworkError>)
        ensures
            self@.udp ==> sends(r, message@, self@.compression),
            !self@.udp ==> r == Err::<Vec<u8>, NetworkError>(NetworkError::Disconnected),
    {
        if self.udp {
            message.serialize_with(self.compression)
        } else {
            Err(NetworkError::Disconnected)
        }
    }

    /// How sending ended, from how writing ended.
    pub fn sent(written: Result<(), String>) -> (r: Result<(), NetworkError>)
        ensures
            r == (match written {
                Ok(_) => Ok(()),
                Err(e) => Err(NetworkError::Io(e)),
            }),
    {
        written_ok(written)
    }

    /// The bytes to write to the TCP stream for a new message of a type and content.
    fn request(&self, msg_type: MessageType, data: Bytes) -> (r: Result<Vec<u8>, NetworkError>)
        ensures
            requests(r, self@.tcp, msg_type@, contents(data)),
    {
        let message = Message::new(msg_type, data);
        let r = self.send_tcp(&message);
        proof {
            let reading = choose|reading: Option<u128>| #[trigger]
                is_system_reading(reading) && message.timestamp == timestamp_of(reading);
            assert(self@.tcp ==> r->Ok_0@ == wire_bytes(
                fresh(message.id, timestamp_of(reading), msg_type@, contents(data)),
            ));
        }
        r
    }

    /// The bytes to write to the TCP stream in order to join a room.
    pub fn join_room(&self, room_id: &RoomId) -> (r: Result<Vec<u8>, NetworkError>)
        ensures
            requests(r, self@.tcp, MessageTypeView::JoinRoom, encode_utf8(room_id@)),
    {
        self.request(MessageType::JoinRoom, bytes_from_text(room_id.clone()))
    }

    /// The bytes to write to the TCP stream in order to create a room.
    pub fn create_room(&self, room_id: &RoomId, max_travelers: usize) -> (r: Result<
        Vec<u8>,
        NetworkError,
    >)
        ensures
            requests(
                r,
                self@.tcp,
                MessageTypeView::CreateRoom,
                encode_utf8(room_request(room_id@, max_travelers)),
            ),
    {
        let mut text = room_id.clone();
        text.append(":");
        text.append(decimal_text(max_travelers as u64).as_str());
        self.request(MessageType::CreateRoom, bytes_from_text(text))
    }

    /// Takes note of how writing the request to join or create a room ended.
    pub fn room_entered(&mut self, room_id: RoomId, written: Result<(), String>) -> (r: Result<
        (),
        NetworkError,
    >)
        ensures
            match written {
                Ok(_) => r is Ok && final(self)@ == old(self)@.placed(Some(room_id)),
                Err(e) => r == Err::<(), NetworkError>(NetworkError::Io(e)) && final(self)@
                    == old(self)@,
            },
    {
        written_ok(written)?;
        self.current_room = Some(room_id);
        Ok(())
    }

    /// The bytes to write to the TCP stream in order to leave the current room.
    /// Outside of any room there is nothing to write.
    pub fn leave_room(&self) -> (r: Result<Option<Vec<u8>>, NetworkError>)
        ensures
            match self@.current_room {
                Some(room_id) => if self@.tcp {
                    r matches Ok(Some(bytes)) && is_request(
                        bytes@,
                        MessageTypeView::LeaveRoom,
                        encode_utf8(room_id@),
                    )
                } else {
                    r == Err::<Option<Vec<u8>>, NetworkError>(NetworkError::Disconnected)
                },
                None => r == Ok::<Option<Vec<u8>>, NetworkError>(None),
            },
    {
        match &self.current_room {
            Some(room_id) => match self.request(
                MessageType::LeaveRoom,
                bytes_from_text(room_id.clone()),
            ) {
                Ok(bytes) => Ok(Some(bytes)),
                Err(e) => Err(e),
            },
            None => Ok(None),
        }
    }

    /// Takes note of how writing the request to leave the current room ended.
    pub fn room_left(&mut self, written: Result<(), String>) -> (r: Result<(), NetworkError>)
        ensures
            match written {
                Ok(_) => r is Ok && final(self)@ == old(self)@.placed(None),
                Err(e) => r == Err::<(), NetworkError>(NetworkError::Io(e)) && final(self)@
                    == old(self)@,
            },
    {
        written_ok(written)?;
        self.current_room = None;
        Ok(())
    }

    /// The bytes to write to the TCP stream in order to authenticate.
    pub fn authenticate(&self, auth_token: String) -> (r: Result<Vec<u8>, NetworkError>)
        ensures
            requests(r, self@.tcp, MessageTypeView::Authentication, encode_utf8(auth_token@)),
    {
        self.request(MessageType::Authentication, bytes_from_text(auth_token))
    }

    /// The bytes to write to the TCP stream in order to ping the host.
    pub fn ping(&self) -> (r: Result<Vec<u8>, NetworkError>)
        ensures
            requests(r, self@.tcp, MessageTypeView::Ping, Seq::empty()),
    {
        self.request(MessageType::Ping, Bytes::new())
    }

    /// Takes the oldest report, where there is one.
    pub fn receive(&mut self) -> (event: Option<NetworkEvent>)
        ensures
            match event {
                Some(e) => old(self)@.events.len() > 0 && e == old(self)@.events[0]
                    && final(self)@ == (TravelerView {
                    events: old(self)@.events.skip(1),
                    ..old(self)@
                }),
                None => old(self)@.events.len() == 0 && final(self)@ == old(self)@,
            },
    {
        let event = self.events.pop_front();
        assert(event is Some ==> self@.events =~= old(self)@.events.skip(1));
        event
    }

    /// Begins to disconnect. Who is in a room leaves it first; where that cannot
    /// be asked for, nothing changes and the error is the outcome.
    pub fn disconnect(&mut self) -> (step: DisconnectStep)
        ensures
            match old(self)@.current_room {
                Some(room_id) => {
                    &&& final(self)@ == old(self)@
                    &&& if old(self)@.tcp {
                        step matches DisconnectStep::SendLeave(bytes) && is_request(
                            bytes@,
                            MessageTypeView::LeaveRoom,
                            encode_utf8(room_id@),
                        )
                    } else {
                        step == DisconnectStep::Done(Err(NetworkError::Disconnected))
                    }
                },
                None => takes_leave(old(self)@, final(self)@, step),
            },
    {
        match self.leave_room() {
            Err(e) => DisconnectStep::Done(Err(e)),
            Ok(Some(bytes)) => DisconnectStep::SendLeave(bytes),
            Ok(None) => self.take_leave(),
        }
    }

    /// Goes on disconnecting once writing the request to leave the room has
    /// ended. Where it failed, nothing changes and the error is the outcome.
    pub fn disconnect_left(&mut self, written: Result<(), String>) -> (step: DisconnectStep)
        ensures
            match written {
                Ok(_) => takes_leave(old(self)@.placed(None), final(self)@, step),
                Err(e) => step == DisconnectStep::Done(Err(NetworkError::Io(e))) && final(self)@
                    == old(self)@,
            },
    {
        match self.room_left(written) {
            Err(e) => DisconnectStep::Done(Err(e)),
            Ok(_) => self.take_leave(),
        }
    }

    /// Ends disconnecting once the host has been told, whether or not the telling worked.
    pub fn disconnect_notified(&mut self) -> (step: DisconnectStep)
        ensures
            step == DisconnectStep::Done(Ok(())),
            final(self)@ == TravelerView::offline(old(self)@.compression, old(self)@.events),
    {
        self.go_offline();
        DisconnectStep::Done(Ok(()))
    }

    /// Tells the host where there is a TCP stream, else goes offline at once.
    fn take_leave(&mut self) -> (step: DisconnectStep)
        ensures
            takes_leave(old(self)@, final(self)@, step),
    {
        match self.request(MessageType::Disconnect, Bytes::new()) {
            Ok(bytes) => DisconnectStep::SendNotice(bytes),
            Err(_) => {
                self.go_offline();
                DisconnectStep::Done(Ok(()))
            },
        }
    }

    /// Forgets the connection.
    fn go_offline(&mut self)
        ensures
            final(self)@ == TravelerView::offline(old(self)@.compression, old(self)@.events),
    {
        self.tcp = false;
        self.udp = false;
        self.connection_id = None;
        self.host_addr = None;
        self.current_room = None;
        self.authenticated = false;
    }

    /// The identifier of the connection, where there is one.
    pub fn connection_id(&self) -> (id: Option<ConnectionId>)
        ensures
            id == self@.connection_id,
    {
        self.connection_id
    }

    /// The room that the traveler is in, where it is in one.
    pub fn current_room(&self) -> (room: Option<&RoomId>)
        ensures
            match room {
                Some(r) => self@.current_room == Some(*r),
                None => self@.current_room is None,
            },
    {
        self.current_room.as_ref()
    }

    /// Whether the traveler is authenticated.
    pub fn is_authenticated(&self) -> (authenticated: bool)
        ensures
            authenticated == self@.authenticated,
    {
        self.authenticated
    }

    /// The address of the host, where there is a connection.
    pub fn host_address(&self) -> (addr: Option<SocketAddr>)
        ensures
            addr == self@.host_addr,
    {
        self.host_addr
    }
}

/// A traveler can send over TCP from its connecting until its disconnecting:
/// neither entering nor leaving a room, nor connecting over UDP, ends that.
pub proof fn law_can_send_while_connected(
    t: TravelerView,
    id: ConnectionId,
    addr: SocketAddr,
    room: Option<RoomId>,
    udp_id: ConnectionId,
    udp_addr: SocketAddr,
)
    ensures
        t.via_tcp(id, addr).tcp,
        t.via_tcp(id, addr).placed(room).tcp,
        t.via_tcp(id, addr).via_udp(udp_id, udp_addr).tcp,
        !TravelerView::offline(t.compression, t.events).tcp,
{
}

/// Leaving undoes entering: who was in no room, enters one and leaves it, is as before.
pub proof fn law_leave_undoes_enter(t: TravelerView, room: RoomId)
    requires
        t.current_room is None,
    ensures
        t.placed(Some(room)).placed(None) == t,
{
}

/// Disconnecting undoes connecting: who was offline, connects over TCP, UDP or
/// both, enters a room and disconnects, is as before.
pub proof fn law_disconnect_undoes_connect(
    compression: bool,
    events: Seq<NetworkEvent>,
    id: ConnectionId,
    addr: SocketAddr,
    udp_id: ConnectionId,
    udp_addr: SocketAddr,
    room: Option<RoomId>,
)
    ensures
        ({
            let t = TravelerView::offline(compression, events).via_tcp(id, addr).via_udp(
                udp_id,
                udp_addr,
            ).placed(room);
            TravelerView::offline(t.compression, t.events) == TravelerView::offline(
                compression,
                events,
            )
        }),
{
}

/// What is sent is what is heard: where the bytes of a message come over TCP, one
/// report is added, and it is of that very message.
pub proof fn law_sent_is_heard(
    before: TravelerView,
    after: TravelerView,
    from: ConnectionId,
    m: MessageView,
    bytes: Seq<u8>,
)
    requires
        wire_bytes(m).len() <= u64::MAX,
        carries(bytes, m, before.compression),
        hears(before, after, from, bytes),
    ensures
        reports_message(after.events.last(), from, m, TransportType::Tcp),
        after == (TravelerView { events: before.events.push(after.events.last()), ..before }),
{
    law_codec_round_trip(m, before.compression, bytes);
}

/// What a request says is what arrives: in a build with or without compression, its
/// bytes are read as a message of the type and content that were asked for.
pub proof fn law_request_is_read(
    bytes: Seq<u8>,
    msg_type: MessageTypeView,
    data: Seq<u8>,
    compression: bool,
)
    requires
        is_request(bytes, msg_type, data),
        bytes.len() <= u64::MAX,
    ensures
        opened(bytes, compression) matches Ok(m) && m.msg_type == msg_type && m.data == data
            && is_random_id(m.id),
{
    let (id, reading) = choose|id: u128, reading: Option<u128>|
        is_drawn(id) && is_random_id(id) && is_system_reading(reading) && bytes == wire_bytes(
            #[trigger] fresh(id, timestamp_of(reading), msg_type, data),
        );
    law_codec_round_trip(fresh(id, timestamp_of(reading), msg_type, data), compression, bytes);
}

/// A traveler that is offline has nothing but its reports.
pub proof fn law_offline_has_nothing(compression: bool, events: Seq<NetworkEvent>)
    ensures
        TravelerView::offline(compression, events).connection_id is None,
        TravelerView::offline(compression, events).host_addr is None,
        TravelerView::offline(compression, events).current_room is None,
        !TravelerView::offline(compression, events).tcp,
        !TravelerView::offline(compression, events).udp,
        !TravelerView::offline(compression, events).authenticated,
        TravelerView::offline(compression, events).compression == compression,
        TravelerView::offline(compression, events).events == events,
{
}

/// Connecting notes the connection: its identifier, the host's address and the transport.
/// The other transport, the room and everything else stay.
pub proof fn law_connecting_is_noted(t: TravelerView, id: ConnectionId, addr: SocketAddr)
    ensures
        t.via_tcp(id, addr).connection_id == Some(id),
        t.via_tcp(id, addr).host_addr == Some(addr),
        t.via_tcp(id, addr).tcp,
        t.via_tcp(id, addr).udp == t.udp,
        t.via_tcp(id, addr).current_room == t.current_room,
        t.via_tcp(id, addr).authenticated == t.authenticated,
        t.via_tcp(id, addr).compression == t.compression,
        t.via_tcp(id, addr).events == t.events,
        t.via_udp(id, addr).connection_id == Some(id),
        t.via_udp(id, addr).host_addr == Some(addr),
        t.via_udp(id, addr).udp,
        t.via_udp(id, addr).tcp == t.tcp,
        t.via_udp(id, addr).current_room == t.current_room,
        t.via_udp(id, addr).authenticated == t.authenticated,
        t.via_udp(id, addr).compression == t.compression,
        t.via_udp(id, addr).events == t.events,
{
}

/// Entering and leaving a room changes the room that is noted and nothing else.
pub proof fn law_placing_changes_the_room(t: TravelerView, room: Option<RoomId>)
    ensures
        t.placed(room).current_room == room,
        t.placed(room).connection_id == t.connection_id,
        t.placed(room).host_addr == t.host_addr,
        t.placed(room).tcp == t.tcp,
        t.placed(room).udp == t.udp,
        t.placed(room).authenticated == t.authenticated,
        t.placed(room).compression == t.compression,
        t.placed(room).events == t.events,
{
}

/// A request needs a stream: with one it is a message, without one the answer is that
/// there is no connection.
pub proof fn law_request_needs_a_stream(
    r: Result<Vec<u8>, NetworkError>,
    tcp: bool,
    msg_type: MessageTypeView,
    data: Seq<u8>,
)
    requires
        requests(r, tcp, msg_type, data),
    ensures
        tcp ==> r is Ok && is_request(r->Ok_0@, msg_type, data),
        !tcp ==> r == Err::<Vec<u8>, NetworkError>(NetworkError::Disconnected),
{
}

/// A request is an ordinary new message: its bytes are the wire format of a message with
/// a random identifier, the type and content that were asked for, normal priority, and
/// reliable, neither compressed nor encrypted.
pub proof fn law_request_is_an_ordinary_message(
    bytes: Seq<u8>,
    msg_type: MessageTypeView,
    data: Seq<u8>,
)
    requires
        is_request(bytes, msg_type, data),
    ensures
        exists|m: MessageView|
            bytes == #[trigger] wire_bytes(m) && is_random_id(m.id) && m.msg_type == msg_type
                && m.data == data && m.priority == MessagePriority::Normal && m.reliable
                && !m.compressed && !m.encrypted,
{
    let (id, reading) = choose|id: u128, reading: Option<u128>|
        is_drawn(id) && is_random_id(id) && is_system_reading(reading) && bytes == wire_bytes(
            #[trigger] fresh(id, timestamp_of(reading), msg_type, data),
        );
    let m = fresh(id, timestamp_of(reading), msg_type, data);
    assert(bytes == wire_bytes(m));
}

/// A request for a room spells out its name, a colon and the number of travelers in
/// decimal, in this order and with nothing between.
pub proof fn law_room_request_spells_out(room_id: Seq<char>, max_travelers: usize)
    ensures
        room_request(room_id, max_travelers).take(room_id.len() as int) == room_id,
        room_request(room_id, max_travelers)[room_id.len() as int] == ':',
        number(room_request(room_id, max_travelers).skip(room_id.len() as int + 1)) == max_travelers,
        room_request(room_id, max_travelers).len() > room_id.len() + 1,
        forall|i: int|
            room_id.len() < i < room_request(room_id, max_travelers).len() ==> '0' as int <= (
            #[trigger] room_request(room_id, max_travelers)[i]) as int <= '9' as int,
{
    reveal_strlit(":");
    let text = room_request(room_id, max_travelers);
    let digits = decimal(max_travelers as nat);
    law_decimal_stands_for_its_number(max_travelers as nat);
    assert(text.take(room_id.len() as int) =~= room_id);
    assert(text.skip(room_id.len() as int + 1) =~= digits);
    assert forall|i: int| room_id.len() < i < text.len() implies '0' as int <= (
    #[trigger] text[i]) as int <= '9' as int by {
        assert(text[i] == digits[i - room_id.len() - 1]);
    }
}

/// What comes over the stream has one of two outcomes: a message is reported once, under
/// the identifier of the stream, and what is none changes nothing.
pub proof fn law_hearing(
    before: TravelerView,
    after: TravelerView,
    from: ConnectionId,
    data: Seq<u8>,
)
    requires
        hears(before, after, from, data),
    ensures
        opened(data, before.compression) is Err ==> after == before,
        opened(data, before.compression) matches Ok(m) ==> {
            &&& after.events.len() == before.events.len() + 1
            &&& after.events.drop_last() == before.events
            &&& after.events.last() matches NetworkEvent::MessageReceived {
                from: sender,
                message,
                transport,
            } && sender == from && message@ == m && transport == TransportType::Tcp
        },
        after.connection_id == before.connection_id,
        after.host_addr == before.host_addr,
        after.current_room == before.current_room,
        after.tcp == before.tcp,
        after.udp == before.udp,
        after.authenticated == before.authenticated,
        after.compression == before.compression,
{
    if opened(data, before.compression) is Ok {
        assert(after.events.drop_last() =~= before.events);
    }
}

/// Taking leave tells the host where there is a stream, and changes nothing until that is
/// done. Without a stream it is done at once, and nothing is left but the reports.
pub proof fn law_taking_leave(before: TravelerView, after: TravelerView, step: DisconnectStep)
    requires
        takes_leave(before, after, step),
    ensures
        before.tcp ==> {
            &&& after == before
            &&& step matches DisconnectStep::SendNotice(bytes) && is_request(
                bytes@,
                MessageTypeView::Disconnect,
                Seq::empty(),
            )
        },
        !before.tcp ==> {
            &&& step matches DisconnectStep::Done(Ok(_))
            &&& after.connection_id is None && after.host_addr is None
            &&& after.current_room is None && !after.tcp && !after.udp && !after.authenticated
            &&& after.events == before.events && after.compression == before.compression
        },
{
}

} // verus!
