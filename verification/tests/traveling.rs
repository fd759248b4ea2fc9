use bytes::Bytes;
use shadownetwork2d::{
    DisconnectStep, Host, Message, MessageType, NetworkConfig, NetworkError, NetworkEvent,
    SocketAddr, TransportType, Traveler,
};

fn server() -> SocketAddr {
    SocketAddr::V4 { ip: 0x7f00_0001, port: 8080 }
}

fn connected() -> Traveler {
    let mut t = Traveler::new();
    assert!(t.travel_to_tcp(server(), Ok(())).is_ok());
    t
}

fn read(bytes: &[u8]) -> Message {
    Message::deserialize(bytes).unwrap()
}

fn failed() -> Result<(), String> {
    Err("broken pipe".to_string())
}

#[test]
fn new_traveler_is_offline() {
    let mut t = Traveler::new();
    assert_eq!(t.connection_id(), None);
    assert_eq!(t.current_room(), None);
    assert_eq!(t.host_address(), None);
    assert!(!t.is_authenticated());
    assert!(t.receive().is_none());
    let m = Message::new(MessageType::Ping, Bytes::new());
    assert!(matches!(t.send_tcp(&m), Err(NetworkError::Disconnected)));
    assert!(matches!(t.send_udp(&m), Err(NetworkError::Disconnected)));
    assert!(matches!(t.ping(), Err(NetworkError::Disconnected)));
}

#[test]
fn test_host_traveler_connection() {
    let config = NetworkConfig::default();
    let mut host = Host::new(config);
    let mut gate = host.open_gate();
    let mut traveler = Traveler::new();

    // 127.0.0.1:8080
    let result = traveler.travel_to_tcp(server(), Ok(()));
    assert!(result.is_ok());
    let id = host.traveler_arrived(server());

    let message = Message::new(MessageType::Data, Bytes::from("Hello World"));
    let send_result = traveler.send_tcp(&message);
    assert!(send_result.is_ok());

    host.tcp_received(&mut gate, id, &send_result.unwrap());
    assert!(Traveler::sent(Ok(())).is_ok());
    assert!(matches!(host.next_event(), Some(NetworkEvent::TravelerArrived { .. })));
    match host.next_event() {
        Some(NetworkEvent::MessageReceived { message: got, .. }) => {
            assert_eq!(got.id, message.id);
            assert_eq!(got.data, Bytes::from("Hello World"));
        }
        other => panic!("not a message: {:?}", other),
    }
}

#[test]
fn connection_over_tcp_is_noted() {
    let t = connected();
    assert!(t.connection_id().is_some());
    assert_eq!(t.host_address(), Some(server()));
    let m = Message::new(MessageType::Ping, Bytes::new());
    assert!(matches!(t.send_udp(&m), Err(NetworkError::Disconnected)));
}

#[test]
fn connection_over_udp_is_noted() {
    let mut t = Traveler::new();
    assert!(t.travel_to_udp(server(), Ok(())).is_ok());
    assert!(t.connection_id().is_some());
    assert_eq!(t.host_address(), Some(server()));
    let m = Message::new(MessageType::Ping, Bytes::new());
    assert_eq!(t.send_udp(&m).unwrap(), m.serialize().unwrap());
    assert!(matches!(t.send_tcp(&m), Err(NetworkError::Disconnected)));
}

#[test]
fn connection_is_noted_under_the_given_identifier() {
    let mut t = Traveler::new();
    assert!(t.travel_to_tcp_as(7, server(), Ok(())).is_ok());
    assert_eq!(t.connection_id(), Some(7));
    assert!(t.ping().is_ok());
    let other = SocketAddr::V4 { ip: 1, port: 2 };
    assert!(t.travel_to_udp_as(8, other, Ok(())).is_ok());
    assert_eq!(t.connection_id(), Some(8));
    assert_eq!(t.host_address(), Some(other));
    assert!(t.travel_to_tcp_as(9, server(), failed()).is_err());
    assert!(t.travel_to_udp_as(9, server(), failed()).is_err());
    assert_eq!(t.connection_id(), Some(8));
}

#[test]
fn failed_connection_changes_nothing() {
    let mut t = Traveler::new();
    match t.travel_to_tcp(server(), Err("refused".to_string())) {
        Err(NetworkError::ConnectionFailed(text)) => assert_eq!(text, "refused"),
        other => panic!("not refused: {:?}", other),
    }
    assert!(matches!(
        t.travel_to_udp(server(), Err("refused".to_string())),
        Err(NetworkError::ConnectionFailed(_))
    ));
    assert_eq!(t.connection_id(), None);
    assert_eq!(t.host_address(), None);
}

#[test]
fn failed_write_is_an_io_error() {
    match Traveler::sent(failed()) {
        Err(NetworkError::Io(text)) => assert_eq!(text, "broken pipe"),
        other => panic!("not an I/O error: {:?}", other),
    }
}

#[test]
fn messages_are_heard_in_order() {
    let mut t = connected();
    let a = Message::stamped(1, 0, MessageType::Pong, Bytes::new());
    let b = Message::stamped(2, 0, MessageType::Data, Bytes::from("b"));
    t.tcp_received(9, &a.serialize().unwrap());
    t.tcp_received(9, &[0, 1, 2]);
    t.tcp_received(9, &b.serialize().unwrap());
    match t.receive() {
        Some(NetworkEvent::MessageReceived { from, message, transport }) => {
            assert_eq!(from, 9);
            assert_eq!(message.id, 1);
            assert_eq!(transport, TransportType::Tcp);
        }
        other => panic!("not a message: {:?}", other),
    }
    assert!(matches!(
        t.receive(),
        Some(NetworkEvent::MessageReceived { from: 9, message, .. }) if message.id == 2
    ));
    assert!(t.receive().is_none());
}

#[test]
fn joining_names_the_room() {
    let mut t = connected();
    let m = read(&t.join_room(&"lobby".to_string()).unwrap());
    assert!(matches!(m.msg_type, MessageType::JoinRoom));
    assert_eq!(m.data, Bytes::from("lobby"));
    assert_eq!(t.current_room(), None);
    assert!(matches!(t.room_entered("lobby".to_string(), failed()), Err(NetworkError::Io(_))));
    assert_eq!(t.current_room(), None);
    assert!(t.room_entered("lobby".to_string(), Ok(())).is_ok());
    assert_eq!(t.current_room(), Some(&"lobby".to_string()));
}

#[test]
fn creating_names_the_room_and_its_size() {
    let t = connected();
    let m = read(&t.create_room(&"game_lobby".to_string(), 10).unwrap());
    assert!(matches!(m.msg_type, MessageType::CreateRoom));
    assert_eq!(m.data, Bytes::from("game_lobby:10"));
    let zero = read(&t.create_room(&"".to_string(), 0).unwrap());
    assert_eq!(zero.data, Bytes::from(":0"));
    let most = read(&t.create_room(&"x".to_string(), usize::MAX).unwrap());
    assert_eq!(most.data, Bytes::from(format!("x:{}", usize::MAX)));
}

#[test]
fn leaving_undoes_entering() {
    let mut t = connected();
    assert!(t.leave_room().unwrap().is_none());
    assert!(t.room_entered("lobby".to_string(), Ok(())).is_ok());
    let m = read(&t.leave_room().unwrap().unwrap());
    assert!(matches!(m.msg_type, MessageType::LeaveRoom));
    assert_eq!(m.data, Bytes::from("lobby"));
    assert!(matches!(t.room_left(failed()), Err(NetworkError::Io(_))));
    assert_eq!(t.current_room(), Some(&"lobby".to_string()));
    assert!(t.room_left(Ok(())).is_ok());
    assert_eq!(t.current_room(), None);
}

#[test]
fn requests_carry_what_was_asked() {
    let t = connected();
    let auth = read(&t.authenticate("pass phrase ü".to_string()).unwrap());
    assert!(matches!(auth.msg_type, MessageType::Authentication));
    assert_eq!(auth.data, Bytes::from("pass phrase ü"));
    let ping = read(&t.ping().unwrap());
    assert!(matches!(ping.msg_type, MessageType::Ping));
    assert!(ping.data.is_empty());
    assert!(!t.is_authenticated());
}

#[test]
fn requests_need_a_connection() {
    let t = Traveler::new();
    let lobby = "lobby".to_string();
    assert!(matches!(t.join_room(&lobby), Err(NetworkError::Disconnected)));
    assert!(matches!(t.create_room(&lobby, 1), Err(NetworkError::Disconnected)));
    assert!(matches!(t.authenticate("x".to_string()), Err(NetworkError::Disconnected)));
    assert!(t.leave_room().unwrap().is_none());
}

#[test]
fn disconnecting_leaves_the_room_and_tells_the_host() {
    let mut t = connected();
    assert!(t.room_entered("lobby".to_string(), Ok(())).is_ok());
    let leave = match t.disconnect() {
        DisconnectStep::SendLeave(bytes) => read(&bytes),
        other => panic!("not a leaving: {:?}", other),
    };
    assert!(matches!(leave.msg_type, MessageType::LeaveRoom));
    assert_eq!(leave.data, Bytes::from("lobby"));
    let notice = match t.disconnect_left(Ok(())) {
        DisconnectStep::SendNotice(bytes) => read(&bytes),
        other => panic!("not a notice: {:?}", other),
    };
    assert!(matches!(notice.msg_type, MessageType::Disconnect));
    assert!(notice.data.is_empty());
    assert!(t.connection_id().is_some());
    assert!(matches!(t.disconnect_notified(), DisconnectStep::Done(Ok(()))));
    assert_eq!(t.connection_id(), None);
    assert_eq!(t.host_address(), None);
    assert_eq!(t.current_room(), None);
    assert!(matches!(t.ping(), Err(NetworkError::Disconnected)));
}

#[test]
fn disconnecting_stops_where_leaving_fails() {
    let mut t = connected();
    assert!(t.room_entered("lobby".to_string(), Ok(())).is_ok());
    assert!(matches!(t.disconnect(), DisconnectStep::SendLeave(_)));
    assert!(matches!(
        t.disconnect_left(failed()),
        DisconnectStep::Done(Err(NetworkError::Io(_)))
    ));
    assert_eq!(t.current_room(), Some(&"lobby".to_string()));
    assert!(t.connection_id().is_some());
}

#[test]
fn disconnecting_outside_of_rooms_starts_with_the_notice() {
    let mut t = connected();
    assert!(matches!(t.disconnect(), DisconnectStep::SendNotice(_)));
    assert!(matches!(t.disconnect_notified(), DisconnectStep::Done(Ok(()))));
}

#[test]
fn disconnecting_without_a_stream_is_done_at_once() {
    let mut t = Traveler::new();
    assert!(t.travel_to_udp(server(), Ok(())).is_ok());
    assert!(matches!(t.disconnect(), DisconnectStep::Done(Ok(()))));
    assert_eq!(t.connection_id(), None);
}

#[test]
fn room_cannot_be_left_without_a_stream() {
    let mut t = Traveler::new();
    assert!(t.room_entered("lobby".to_string(), Ok(())).is_ok());
    assert!(matches!(t.leave_room(), Err(NetworkError::Disconnected)));
    assert!(matches!(t.disconnect(), DisconnectStep::Done(Err(NetworkError::Disconnected))));
    assert_eq!(t.current_room(), Some(&"lobby".to_string()));
}

#[test]
fn traveler_with_compression_packs_what_asks_for_it() {
    let mut t = Traveler::new_with(true);
    assert!(t.travel_to_tcp(server(), Ok(())).is_ok());
    assert!(t.travel_to_udp(server(), Ok(())).is_ok());
    let m = Message::stamped(1, 0, MessageType::Data, Bytes::from("b"));
    assert_eq!(t.send_tcp(&m).unwrap(), m.serialize().unwrap());
    assert_eq!(t.send_tcp(&m.clone().compressed()).unwrap()[..2], [0x1f, 0x8b]);
    assert_eq!(t.send_udp(&m.compressed()).unwrap()[..2], [0x1f, 0x8b]);
    assert!(matches!(read(&t.ping().unwrap()).msg_type, MessageType::Ping));
}

#[test]
fn traveler_with_compression_hears_packed_messages() {
    let mut t = Traveler::new_with(true);
    let m = Message::stamped(1, 0, MessageType::Data, Bytes::from("packed")).compressed();
    t.tcp_received(9, &m.serialize_with(true).unwrap());
    assert!(matches!(
        t.receive(),
        Some(NetworkEvent::MessageReceived { from: 9, message, .. })
            if message.data == Bytes::from("packed") && message.compressed
    ));
}
