use bytes::Bytes;
use shadownetwork2d::{
    new_connection_id, ConnectionId, Host, Instant, Message, MessageType, MessageValidator,
    NetworkConfig, NetworkError, NetworkEvent, Room, SocketAddr, TransportType,
};

fn at(nanos: u128) -> Instant {
    Instant { nanos }
}

fn peer(port: u16) -> SocketAddr {
    SocketAddr::V4 { ip: 0x7f00_0001, port }
}

fn host() -> Host {
    Host::new(NetworkConfig::default())
}

fn room(name: &str) -> String {
    name.to_string()
}

fn data(text: &'static str) -> Message {
    Message::stamped(42, 7, MessageType::Data, Bytes::from(text))
}

fn events(host: &mut Host) -> Vec<NetworkEvent> {
    let mut all = Vec::new();
    while let Some(event) = host.next_event() {
        all.push(event);
    }
    all
}

fn find(host: &Host, name: &str) -> Option<Room> {
    host.rooms().into_iter().find(|r| r.id == name)
}

fn noted_room(host: &Host, id: ConnectionId) -> Option<String> {
    host.connections().into_iter().find(|c| c.id == id).and_then(|c| c.room_id)
}

#[test]
fn test_room_management() {
    let config = NetworkConfig::default();
    let mut host = Host::new(config);
    let traveler_id = new_connection_id();

    let result = host.create_room("test_room".to_string(), traveler_id, 10);
    assert!(result.is_ok());

    let result = host.join_room(&"test_room".to_string(), new_connection_id());
    assert!(result.is_ok());

    let rooms = host.rooms();
    assert_eq!(rooms.len(), 1);
    assert_eq!(rooms[0].id, "test_room");
}

#[test]
fn arrival_is_filed_and_reported() {
    let mut h = host();
    h.traveler_arrived_at(1, peer(5000), at(9));
    let all = h.connections();
    assert_eq!(all.len(), 1);
    assert_eq!(all[0].id, 1);
    assert_eq!(all[0].addr, peer(5000));
    assert_eq!(all[0].connected_at, at(9));
    assert_eq!(all[0].last_activity, at(9));
    assert_eq!(all[0].bytes_sent, 0);
    assert_eq!(all[0].bytes_received, 0);
    assert_eq!(all[0].message_count, 0);
    assert_eq!(all[0].transport, TransportType::Tcp);
    assert!(!all[0].authenticated);
    assert!(all[0].room_id.is_none());
    assert!(matches!(
        h.next_event(),
        Some(NetworkEvent::TravelerArrived { id: 1, room: None, addr }) if addr == peer(5000)
    ));
    assert!(h.next_event().is_none());
}

#[test]
fn arrivals_get_identifiers_of_their_own() {
    let mut h = host();
    let a = h.traveler_arrived(peer(1));
    let b = h.traveler_arrived(peer(2));
    assert_ne!(a, b);
    let mut ids = h.broadcast_to_all();
    ids.sort();
    let mut expected = vec![a, b];
    expected.sort();
    assert_eq!(ids, expected);
}

#[test]
fn traveler_can_be_reached_until_its_stream_ends() {
    let mut h = host();
    assert!(matches!(h.send_to_traveler(1, &data("x")), Err(NetworkError::Disconnected)));
    h.traveler_arrived_at(1, peer(1), at(0));
    assert_eq!(h.send_to_traveler(1, &data("x")).unwrap(), data("x").serialize().unwrap());
    h.traveler_left(1);
    assert!(matches!(h.send_to_traveler(1, &data("x")), Err(NetworkError::Disconnected)));
    assert!(h.connections().is_empty());
    assert!(matches!(
        events(&mut h).pop(),
        Some(NetworkEvent::TravelerLeft { id: 1, room: None })
    ));
}

#[test]
fn sent_bytes_are_counted() {
    let mut h = host();
    h.traveler_arrived_at(1, peer(1), at(0));
    assert!(h.sent_to_traveler_at(1, 64, Ok(()), at(5)).is_ok());
    assert!(h.sent_to_traveler_at(1, 36, Ok(()), at(6)).is_ok());
    let c = &h.connections()[0];
    assert_eq!(c.bytes_sent, 100);
    assert_eq!(c.last_activity, at(6));
    assert_eq!(c.connected_at, at(0));
    match h.sent_to_traveler_at(1, 1, Err("broken pipe".to_string()), at(7)) {
        Err(NetworkError::Io(text)) => assert_eq!(text, "broken pipe"),
        other => panic!("not an I/O error: {:?}", other),
    }
    assert_eq!(h.connections()[0].bytes_sent, 100);
    assert!(h.sent_to_traveler(9, 1, Ok(())).is_ok());
    assert!(h.sent_to_traveler(1, 1, Ok(())).is_ok());
    assert_eq!(h.connections()[0].bytes_sent, 101);
}

#[test]
fn what_is_sent_is_what_is_reported() {
    let mut h = host();
    let mut gate = h.open_gate();
    let id = h.traveler_arrived(peer(1));
    let bytes = data("Hello World").serialize().unwrap();
    h.tcp_received(&mut gate, id, &bytes);
    let mut all = events(&mut h);
    assert_eq!(all.len(), 2);
    match all.pop() {
        Some(NetworkEvent::MessageReceived { from, message, transport }) => {
            assert_eq!(from, id);
            assert_eq!(message.id, 42);
            assert_eq!(message.data, Bytes::from("Hello World"));
            assert_eq!(transport, TransportType::Tcp);
        }
        other => panic!("not a message: {:?}", other),
    }
    let c = &h.connections()[0];
    assert_eq!(c.bytes_received, bytes.len() as u64);
    assert_eq!(c.message_count, 1);
}

#[test]
fn message_beyond_the_size_is_reported_as_refused() {
    let mut h = Host::new(NetworkConfig { max_message_size: 3, ..NetworkConfig::default() });
    let mut gate = h.open_gate();
    h.tcp_received(&mut gate, 1, &data("four").serialize().unwrap());
    match h.next_event() {
        Some(NetworkEvent::ValidationFailed { connection, reason }) => {
            assert_eq!(connection, 1);
            assert_eq!(reason, "Message validation failed");
        }
        other => panic!("not a refusal: {:?}", other),
    }
    assert!(h.next_event().is_none());
}

#[test]
fn message_beyond_the_rate_is_reported_as_such() {
    let mut h = Host::new(NetworkConfig { rate_limit_per_second: 2, ..NetworkConfig::default() });
    let mut gate = h.open_gate();
    let bytes = data("x").serialize().unwrap();
    for _ in 0..3 {
        h.tcp_received(&mut gate, 1, &bytes);
    }
    let all = events(&mut h);
    assert_eq!(all.len(), 3);
    assert!(matches!(all[0], NetworkEvent::MessageReceived { .. }));
    assert!(matches!(all[1], NetworkEvent::MessageReceived { .. }));
    assert!(matches!(all[2], NetworkEvent::RateLimitExceeded { connection: 1 }));
}

#[test]
fn gates_count_for_themselves() {
    let mut h = Host::new(NetworkConfig { rate_limit_per_second: 1, ..NetworkConfig::default() });
    let mut tcp = h.open_gate();
    let mut other = h.open_gate();
    let bytes = data("x").serialize().unwrap();
    h.tcp_received(&mut tcp, 1, &bytes);
    h.tcp_received(&mut other, 1, &bytes);
    let all = events(&mut h);
    assert_eq!(all.len(), 2);
    assert!(all.iter().all(|e| matches!(e, NetworkEvent::MessageReceived { .. })));
}

#[test]
fn noise_is_dropped_silently() {
    let mut h = host();
    let mut gate = h.open_gate();
    h.tcp_received(&mut gate, 1, &[1, 2, 3]);
    h.udp_received(&mut gate, &[1, 2, 3]);
    assert!(h.next_event().is_none());
}

#[test]
fn received_data_is_judged_as_told() {
    let mut h = host();
    let validator = MessageValidator::new(10);
    h.traveler_arrived_at(1, peer(1), at(0));
    let bytes = data("x").serialize().unwrap();
    h.tcp_received_at(&validator, 1, &bytes, false, at(1));
    assert_eq!(h.connections()[0].message_count, 0);
    h.tcp_received_at(&validator, 1, &bytes, true, at(2));
    assert_eq!(h.connections()[0].message_count, 1);
    assert_eq!(h.connections()[0].last_activity, at(2));
    let all = events(&mut h);
    assert!(matches!(all[1], NetworkEvent::RateLimitExceeded { connection: 1 }));
    assert!(matches!(all[2], NetworkEvent::MessageReceived { from: 1, .. }));
}

#[test]
fn datagrams_come_from_connections_of_their_own() {
    let mut h = Host::new(NetworkConfig { rate_limit_per_second: 1, ..NetworkConfig::default() });
    let mut gate = h.open_gate();
    let bytes = data("x").serialize().unwrap();
    h.udp_received(&mut gate, &bytes);
    h.udp_received(&mut gate, &bytes);
    let all = events(&mut h);
    assert_eq!(all.len(), 2);
    match (&all[0], &all[1]) {
        (
            NetworkEvent::MessageReceived { from: a, transport: s, .. },
            NetworkEvent::MessageReceived { from: b, transport: t, .. },
        ) => {
            assert_ne!(a, b);
            assert_eq!(*s, TransportType::Udp);
            assert_eq!(*t, TransportType::Udp);
        }
        other => panic!("not two messages: {:?}", other),
    }
}

#[test]
fn datagrams_that_are_refused_are_dropped_silently() {
    let mut h = host();
    let validator = MessageValidator::new(10);
    h.udp_message(&validator, 1, data("x"), false);
    h.udp_message(&validator, 1, data(""), true);
    assert!(h.next_event().is_none());
    h.udp_message(&validator, 1, data("x"), true);
    assert!(matches!(h.next_event(), Some(NetworkEvent::MessageReceived { from: 1, .. })));
}

#[test]
fn created_room_is_empty_and_noted() {
    let mut h = host();
    h.traveler_arrived_at(1, peer(1), at(0));
    assert!(h.create_room_at(room("lobby"), 1, 10, at(3)).is_ok());
    let r = find(&h, "lobby").unwrap();
    assert_eq!(r.host, 1);
    assert!(r.travelers.is_empty());
    assert!(r.metadata.is_empty());
    assert_eq!(r.max_travelers, 10);
    assert_eq!(r.created_at, at(3));
    assert_eq!(noted_room(&h, 1), Some(room("lobby")));
    match events(&mut h).pop() {
        Some(NetworkEvent::RoomCreated { room_id, host }) => {
            assert_eq!(room_id, "lobby");
            assert_eq!(host, 1);
        }
        other => panic!("not a creation: {:?}", other),
    }
}

#[test]
fn rooms_are_no_larger_than_configured() {
    let mut h = host();
    assert!(h.create_room(room("big"), 1, 51).is_ok());
    assert_eq!(find(&h, "big").unwrap().max_travelers, 50);
}

#[test]
fn room_names_are_taken_once() {
    let mut h = host();
    assert!(h.create_room(room("a"), 1, 10).is_ok());
    let r = h.create_room(room("a"), 2, 10);
    match &r {
        Err(NetworkError::RoomNotFound(text)) => assert_eq!(text, "Room already exists"),
        other => panic!("not refused: {:?}", other),
    }
    assert_eq!(find(&h, "a").unwrap().host, 1);
    assert_eq!(r.unwrap_err().message(), "Room not found: Room already exists");
}

#[test]
fn number_of_rooms_is_limited() {
    let mut h = Host::new(NetworkConfig { max_rooms: 1, ..NetworkConfig::default() });
    assert!(h.create_room(room("a"), 1, 10).is_ok());
    assert!(matches!(h.create_room(room("b"), 1, 10), Err(NetworkError::RoomFull)));
    // the limit is looked at before the name
    assert!(matches!(h.create_room(room("a"), 1, 10), Err(NetworkError::RoomFull)));
}

#[test]
fn joining_is_ordered_and_reported() {
    let mut h = host();
    h.traveler_arrived_at(2, peer(2), at(0));
    assert!(h.create_room(room("a"), 1, 10).is_ok());
    assert!(h.join_room(&room("a"), 3).is_ok());
    assert!(h.join_room(&room("a"), 2).is_ok());
    assert_eq!(find(&h, "a").unwrap().travelers, vec![3, 2]);
    assert_eq!(noted_room(&h, 2), Some(room("a")));
    match events(&mut h).pop() {
        Some(NetworkEvent::TravelerJoinedRoom { traveler_id, room_id }) => {
            assert_eq!(traveler_id, 2);
            assert_eq!(room_id, "a");
        }
        other => panic!("not a joining: {:?}", other),
    }
}

#[test]
fn joining_twice_is_joining_once() {
    let mut h = host();
    assert!(h.create_room(room("a"), 1, 10).is_ok());
    assert!(h.join_room(&room("a"), 2).is_ok());
    assert!(h.join_room(&room("a"), 2).is_ok());
    assert_eq!(find(&h, "a").unwrap().travelers, vec![2]);
    assert_eq!(events(&mut h).len(), 3);
}

#[test]
fn full_room_admits_nobody() {
    let mut h = host();
    assert!(h.create_room(room("a"), 1, 1).is_ok());
    assert!(h.join_room(&room("a"), 2).is_ok());
    assert!(matches!(h.join_room(&room("a"), 3), Err(NetworkError::RoomFull)));
    // not even who is in it already
    assert!(matches!(h.join_room(&room("a"), 2), Err(NetworkError::RoomFull)));
    assert_eq!(find(&h, "a").unwrap().travelers, vec![2]);
}

#[test]
fn rooms_that_do_not_exist_are_not_found() {
    let mut h = host();
    match h.join_room(&room("nowhere"), 1) {
        Err(NetworkError::RoomNotFound(name)) => assert_eq!(name, "nowhere"),
        other => panic!("not refused: {:?}", other),
    }
    match h.leave_room(&room("nowhere"), 1) {
        Err(NetworkError::RoomNotFound(name)) => assert_eq!(name, "nowhere"),
        other => panic!("not refused: {:?}", other),
    }
    assert!(h.next_event().is_none());
}

#[test]
fn leaving_undoes_joining() {
    let mut h = host();
    h.traveler_arrived_at(2, peer(2), at(0));
    assert!(h.create_room(room("a"), 1, 10).is_ok());
    assert!(h.join_room(&room("a"), 3).is_ok());
    assert!(h.join_room(&room("a"), 2).is_ok());
    assert!(h.leave_room(&room("a"), 2).is_ok());
    let r = find(&h, "a").unwrap();
    assert_eq!(r.travelers, vec![3]);
    assert_eq!(r.host, 1);
    assert_eq!(noted_room(&h, 2), None);
    match events(&mut h).pop() {
        Some(NetworkEvent::TravelerLeftRoom { traveler_id, room_id }) => {
            assert_eq!(traveler_id, 2);
            assert_eq!(room_id, "a");
        }
        other => panic!("not a leaving: {:?}", other),
    }
}

#[test]
fn room_passes_to_who_joined_first() {
    let mut h = host();
    assert!(h.create_room(room("a"), 1, 10).is_ok());
    assert!(h.join_room(&room("a"), 5).is_ok());
    assert!(h.join_room(&room("a"), 4).is_ok());
    assert!(h.leave_room(&room("a"), 1).is_ok());
    let r = find(&h, "a").unwrap();
    assert_eq!(r.host, 5);
    assert_eq!(r.travelers, vec![5, 4]);
    let all = events(&mut h);
    assert!(matches!(all[all.len() - 2], NetworkEvent::TravelerLeftRoom { traveler_id: 1, .. }));
    match &all[all.len() - 1] {
        NetworkEvent::HostMigrated { old_host, new_host, room_id } => {
            assert_eq!(*old_host, 1);
            assert_eq!(*new_host, 5);
            assert_eq!(room_id, "a");
        }
        other => panic!("not a migration: {:?}", other),
    }
}

#[test]
fn empty_room_goes_with_its_host() {
    let mut h = host();
    assert!(h.create_room(room("a"), 1, 10).is_ok());
    assert!(h.create_room(room("b"), 1, 10).is_ok());
    assert!(h.leave_room(&room("a"), 1).is_ok());
    assert!(find(&h, "a").is_none());
    assert!(find(&h, "b").is_some());
    match events(&mut h).pop() {
        Some(NetworkEvent::RoomDestroyed { room_id }) => assert_eq!(room_id, "a"),
        other => panic!("not a destruction: {:?}", other),
    }
}

#[test]
fn room_stays_when_its_last_traveler_leaves_the_host_behind() {
    let mut h = host();
    assert!(h.create_room(room("a"), 1, 10).is_ok());
    assert!(h.join_room(&room("a"), 2).is_ok());
    assert!(h.leave_room(&room("a"), 2).is_ok());
    assert_eq!(find(&h, "a").unwrap().host, 1);
}

#[test]
fn host_who_also_travels_leaves_as_both() {
    let mut h = host();
    assert!(h.create_room(room("a"), 1, 10).is_ok());
    assert!(h.join_room(&room("a"), 1).is_ok());
    assert!(h.leave_room(&room("a"), 1).is_ok());
    assert!(find(&h, "a").is_none());
}

#[test]
fn leaving_is_reported_even_of_strangers() {
    let mut h = host();
    assert!(h.create_room(room("a"), 1, 10).is_ok());
    assert!(h.leave_room(&room("a"), 9).is_ok());
    assert!(matches!(
        events(&mut h).pop(),
        Some(NetworkEvent::TravelerLeftRoom { traveler_id: 9, .. })
    ));
    assert!(find(&h, "a").is_some());
}

#[test]
fn message_to_a_room_goes_to_travelers_then_host() {
    let mut h = host();
    assert!(h.create_room(room("a"), 1, 10).is_ok());
    assert!(h.join_room(&room("a"), 3).is_ok());
    assert!(h.join_room(&room("a"), 2).is_ok());
    assert_eq!(h.broadcast_to_room(&room("a")), vec![3, 2, 1]);
    assert!(h.broadcast_to_room(&room("b")).is_empty());
}

#[test]
fn stats_count_connections_and_rooms() {
    let mut h = host();
    h.traveler_arrived_at(1, peer(1), at(0));
    h.traveler_arrived_at(2, peer(2), at(0));
    assert!(h.create_room(room("a"), 1, 10).is_ok());
    let s = h.stats_at(77);
    assert_eq!(s.active_connections, 2);
    assert_eq!(s.active_rooms, 1);
    assert_eq!(s.uptime_seconds, 77);
    assert_eq!(s.total_connections, 0);
    assert_eq!(s.messages_sent, 0);
    assert_eq!(s.host_migrations, 0);
    let now = h.stats();
    assert_eq!(now.active_connections, 2);
    assert!(now.uptime_seconds < 20);
}

#[test]
fn reports_come_in_order() {
    let mut h = host();
    h.traveler_arrived_at(1, peer(1), at(0));
    assert!(h.create_room(room("a"), 1, 10).is_ok());
    h.traveler_left(1);
    let all = events(&mut h);
    assert!(matches!(all[0], NetworkEvent::TravelerArrived { .. }));
    assert!(matches!(all[1], NetworkEvent::RoomCreated { .. }));
    assert!(matches!(all[2], NetworkEvent::TravelerLeft { .. }));
    assert_eq!(all.len(), 3);
}

#[test]
fn host_with_compression_packs_what_asks_for_it() {
    let mut h = Host::new_with(NetworkConfig::default(), true);
    h.traveler_arrived_at(1, peer(1), at(0));
    let plain = h.send_to_traveler(1, &data("x")).unwrap();
    assert_eq!(plain, data("x").serialize().unwrap());
    let packed = h.send_to_traveler(1, &data("x").compressed()).unwrap();
    assert_eq!(packed[..2], [0x1f, 0x8b]);
}

#[test]
fn host_with_compression_hears_packed_and_plain_messages() {
    let mut h = Host::new_with(NetworkConfig::default(), true);
    let mut gate = h.open_gate();
    let packed = data("packed").compressed().serialize_with(true).unwrap();
    h.tcp_received(&mut gate, 1, &packed);
    h.udp_received(&mut gate, &packed);
    h.tcp_received(&mut gate, 1, &data("plain").serialize().unwrap());
    let texts: Vec<Bytes> = events(&mut h)
        .into_iter()
        .map(|e| match e {
            NetworkEvent::MessageReceived { message, .. } => message.data,
            other => panic!("not a message: {:?}", other),
        })
        .collect();
    assert_eq!(texts, vec![Bytes::from("packed"), Bytes::from("packed"), Bytes::from("plain")]);
}

#[test]
fn counters_follow_rooms_and_connections() {
    let mut h = host();
    assert!(h.create_room(room("a"), 1, 10).is_ok());
    assert_eq!(h.stats().active_rooms, 1);
    assert!(h.create_room(room("a"), 1, 10).is_err());
    assert_eq!(h.stats().active_rooms, 1);
    assert!(h.create_room(room("b"), 1, 10).is_ok());
    assert_eq!(h.stats().active_rooms, 2);
    assert!(h.leave_room(&room("a"), 1).is_ok());
    assert_eq!(h.stats().active_rooms, 1);
    assert_eq!(h.stats().active_rooms, h.rooms().len());
    let id = h.traveler_arrived(peer(1));
    assert_eq!(h.stats().active_connections, 1);
    assert_eq!(h.stats().active_connections, h.connections().len());
    h.traveler_left(id);
    assert_eq!(h.stats().active_connections, 0);
}
