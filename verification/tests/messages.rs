use bytes::Bytes;
use shadownetwork2d::message::{CUSTOM_INDEX, MESSAGE_TYPES, PRIORITIES};
use shadownetwork2d::wire::{decode, encode};
use shadownetwork2d::{Message, MessagePriority, MessageType, NetworkError};
use uuid::Uuid;

fn sample() -> Message {
    Message::stamped(
        0x0011_2233_4455_6677_8899_aabb_ccdd_eeff,
        0x0102_0304,
        MessageType::Custom("né".to_string()),
        Bytes::from(vec![9u8, 8, 7]),
    )
}

fn same(a: &Message, b: &Message) -> bool {
    a.id == b.id
        && format!("{:?}", a.msg_type) == format!("{:?}", b.msg_type)
        && a.data == b.data
        && a.timestamp == b.timestamp
        && a.priority == b.priority
        && a.reliable == b.reliable
        && a.compressed == b.compressed
        && a.encrypted == b.encrypted
}

fn serialization_text(r: Result<Message, NetworkError>) -> String {
    match r {
        Err(NetworkError::Serialization(text)) => text,
        other => panic!("not a serialization error: {:?}", other),
    }
}

#[test]
fn new_message_is_reliable_and_plain() {
    let m = Message::new(MessageType::Data, Bytes::from("Hello World"));
    assert!(m.reliable);
    assert!(!m.compressed);
    assert!(!m.encrypted);
    assert_eq!(m.priority, MessagePriority::Normal);
    assert_eq!(m.data, Bytes::from("Hello World"));
    assert!(matches!(m.msg_type, MessageType::Data));
    // after the first of January 2020
    assert!(m.timestamp > 1_577_836_800_000);
}

#[test]
fn new_messages_have_random_identifiers() {
    let a = Message::new(MessageType::Ping, Bytes::new());
    let b = Message::new(MessageType::Ping, Bytes::new());
    assert_ne!(a.id, b.id);
    assert_eq!(Uuid::from_u128(a.id).get_version_num(), 4);
    assert_eq!((a.id >> 62) & 3, 2);
    assert_eq!((a.id >> 76) & 15, 4);
}

#[test]
fn builders_change_one_field_each() {
    let m = sample();
    let high = m.clone().with_priority(MessagePriority::Critical);
    assert_eq!(high.priority, MessagePriority::Critical);
    assert!(same(&high.with_priority(MessagePriority::Normal), &m));
    assert!(!m.clone().unreliable().reliable);
    assert!(m.clone().compressed().compressed);
    assert!(m.clone().encrypted().encrypted);
    let all = m.unreliable().compressed().encrypted();
    assert!(!all.reliable && all.compressed && all.encrypted);
}

#[test]
fn wire_format_is_exact() {
    let bytes = sample().with_priority(MessagePriority::High).encrypted().serialize().unwrap();
    let expected: Vec<u8> = vec![
        16, 0, 0, 0, 0, 0, 0, 0, // length of the identifier
        0x00, 0x11, 0x22, 0x33, 0x44, 0x55, 0x66, 0x77, 0x88, 0x99, 0xaa, 0xbb, 0xcc, 0xdd, 0xee,
        0xff, // identifier
        12, 0, 0, 0, // message type
        3, 0, 0, 0, 0, 0, 0, 0, 0x6e, 0xc3, 0xa9, // its text
        3, 0, 0, 0, 0, 0, 0, 0, 9, 8, 7, // data
        4, 3, 2, 1, 0, 0, 0, 0, // timestamp
        2, 0, 0, 0, // priority
        1, 0, 1, // flags
    ];
    assert_eq!(bytes, expected);
}

#[test]
fn wire_format_is_that_of_the_fields_together() {
    let m = Message::stamped(77, 1234, MessageType::Pong, Bytes::from("abc")).unreliable();
    let whole = bincode::serialize(&(
        Uuid::from_u128(77),
        11u32,
        Bytes::from("abc"),
        1234u64,
        1u32,
        false,
        false,
        false,
    ))
    .unwrap();
    assert_eq!(m.serialize().unwrap(), whole);
    assert_eq!(encode(&m).unwrap(), whole);
}

#[test]
fn every_type_is_read_back() {
    for index in 0..MESSAGE_TYPES {
        let msg_type = if index == CUSTOM_INDEX {
            MessageType::Custom("chat".to_string())
        } else {
            MessageType::plain(index)
        };
        assert_eq!(msg_type.index(), index);
        let m = Message::stamped(5, 6, msg_type, Bytes::from("x"));
        let back = Message::deserialize(&m.serialize().unwrap()).unwrap();
        assert!(same(&m, &back));
    }
}

#[test]
fn every_priority_is_read_back() {
    for index in 0..PRIORITIES {
        let priority = MessagePriority::from_index(index);
        assert_eq!(priority.index(), index);
        let m = sample().with_priority(priority);
        let back = Message::deserialize(&m.serialize().unwrap()).unwrap();
        assert_eq!(back.priority, priority);
    }
}

#[test]
fn what_follows_a_message_is_left_unread() {
    let m = sample();
    let mut bytes = m.serialize().unwrap();
    bytes.extend_from_slice(&[1, 2, 3]);
    assert!(same(&Message::deserialize(&bytes).unwrap(), &m));
}

#[test]
fn different_messages_differ_on_the_wire() {
    let a = sample();
    assert_ne!(a.serialize().unwrap(), a.clone().unreliable().serialize().unwrap());
    assert_ne!(a.serialize().unwrap(), a.clone().encrypted().serialize().unwrap());
}

#[test]
fn truncated_bytes_are_refused_at_every_length() {
    let bytes = sample().serialize().unwrap();
    for n in 0..bytes.len() {
        let r = Message::deserialize(&bytes[..n]);
        assert!(matches!(r, Err(NetworkError::Serialization(_))), "length {}", n);
    }
}

#[test]
fn empty_input_is_refused_in_words() {
    let text = serialization_text(Message::deserialize(&[]));
    assert_eq!(text, "io error: unexpected end of file");
}

#[test]
fn unknown_message_type_is_refused_in_words() {
    let mut bytes = Message::stamped(1, 2, MessageType::Data, Bytes::new()).serialize().unwrap();
    bytes[24] = 13;
    let text = serialization_text(Message::deserialize(&bytes));
    assert_eq!(text, "invalid value: integer `13`, expected variant index 0 <= i < 13");
}

#[test]
fn unknown_priority_is_refused_in_words() {
    let mut bytes = Message::stamped(1, 2, MessageType::Data, Bytes::new()).serialize().unwrap();
    let at = bytes.len() - 7;
    bytes[at] = 4;
    let text = serialization_text(Message::deserialize(&bytes));
    assert_eq!(text, "invalid value: integer `4`, expected variant index 0 <= i < 4");
}

#[test]
fn unknown_flag_is_refused() {
    let mut bytes = Message::stamped(1, 2, MessageType::Data, Bytes::new()).serialize().unwrap();
    let last = bytes.len() - 1;
    bytes[last] = 2;
    let text = serialization_text(decode(&bytes));
    assert_eq!(text, "invalid u8 while decoding bool, expected 0 or 1, found 2");
    bytes[last - 1] = 255;
    let text = serialization_text(decode(&bytes));
    assert_eq!(text, "invalid u8 while decoding bool, expected 0 or 1, found 255");
}

#[test]
fn text_that_is_not_utf8_is_refused() {
    let mut bytes = sample().serialize().unwrap();
    bytes[28 + 8 + 1] = 0xff;
    assert!(matches!(Message::deserialize(&bytes), Err(NetworkError::Serialization(_))));
}

#[test]
fn identifier_of_another_length_is_refused() {
    let mut bytes = sample().serialize().unwrap();
    bytes[0] = 15;
    assert!(matches!(Message::deserialize(&bytes), Err(NetworkError::Serialization(_))));
}

#[test]
fn compression_makes_a_gzip_stream() {
    let m = Message::stamped(3, 4, MessageType::Data, Bytes::from(vec![7u8; 4096])).compressed();
    let plain = m.serialize_with(false).unwrap();
    let packed = m.serialize_with(true).unwrap();
    assert_eq!(plain, m.serialize().unwrap());
    assert!(packed.len() < plain.len());
    assert_eq!(packed[..2], [0x1f, 0x8b]);
}

#[test]
fn compressed_messages_are_read_back() {
    for m in [sample().compressed(), sample().compressed().encrypted().unreliable()] {
        let bytes = m.serialize_with(true).unwrap();
        assert_eq!(bytes[0], 0x1f);
        assert!(same(&Message::deserialize_with(&bytes, true).unwrap(), &m));
    }
    let large = Message::stamped(3, 4, MessageType::Data, Bytes::from(vec![7u8; 100_000]));
    let bytes = large.clone().compressed().serialize_with(true).unwrap();
    assert!(same(&Message::deserialize_with(&bytes, true).unwrap(), &large.compressed()));
}

#[test]
fn gzip_streams_are_not_read_without_compression() {
    let bytes = sample().compressed().serialize_with(true).unwrap();
    assert!(matches!(
        Message::deserialize_with(&bytes, false),
        Err(NetworkError::Serialization(_))
    ));
}

#[test]
fn unpacking_undoes_packing() {
    for data in [&b""[..], &b"abc"[..], &[0u8; 5000][..]] {
        for compression in [false, true] {
            let bytes = Message::compress(data, compression).unwrap();
            assert_eq!(compression, bytes != data);
            assert_eq!(Message::decompress(&bytes, compression).unwrap(), data);
        }
    }
}

#[test]
fn compression_is_only_for_messages_that_ask_for_it() {
    let m = sample();
    let bytes = m.serialize_with(true).unwrap();
    assert_eq!(bytes, m.serialize_with(false).unwrap());
    assert!(same(&Message::deserialize_with(&bytes, true).unwrap(), &m));
    assert!(same(&Message::deserialize_with(&bytes, false).unwrap(), &m));
}

#[test]
fn unpacking_what_is_no_gzip_stream_fails_in_words() {
    match Message::decompress(b"plain text", true) {
        Err(NetworkError::Io(text)) => assert_eq!(text, "invalid gzip header"),
        other => panic!("not an I/O error: {:?}", other),
    }
}

#[test]
fn what_is_marked_for_compression_has_to_be_packed() {
    let m = sample().compressed();
    let bytes = m.serialize_with(false).unwrap();
    assert!(same(&Message::deserialize_with(&bytes, false).unwrap(), &m));
    match Message::deserialize_with(&bytes, true) {
        Err(NetworkError::Io(text)) => assert_eq!(text, "invalid gzip header"),
        other => panic!("not an I/O error: {:?}", other),
    }
}

#[test]
fn what_is_packed_has_to_be_marked_for_compression() {
    let bytes = Message::compress(&sample().serialize().unwrap(), true).unwrap();
    assert!(matches!(
        Message::deserialize_with(&bytes, true),
        Err(NetworkError::Serialization(_))
    ));
}

#[test]
fn damaged_streams_are_refused_for_their_format() {
    let bytes = sample().compressed().serialize_with(true).unwrap();
    let words = serialization_text(Message::deserialize_with(&bytes, false));
    for damaged in [&bytes[..bytes.len() - 1], &bytes[..12], &[0x1f, 0x8b][..]] {
        assert!(matches!(
            Message::deserialize_with(damaged, true),
            Err(NetworkError::Serialization(_))
        ));
    }
    let mut wrong_sum = bytes.clone();
    let at = wrong_sum.len() - 8;
    wrong_sum[at] ^= 1;
    assert_eq!(serialization_text(Message::deserialize_with(&wrong_sum, true)), words);
}

#[test]
fn outcome_of_unpacking_decides_on_packed_bytes() {
    let failure = || NetworkError::Serialization("no message".to_string());
    let refused = |r: Result<Message, NetworkError>| serialization_text(r) == "no message";
    let marked = sample().compressed();
    let bytes = marked.serialize().unwrap();
    assert!(same(&Message::deserialize_packed(Ok(bytes), failure()).unwrap(), &marked));
    assert!(refused(Message::deserialize_packed(Ok(sample().serialize().unwrap()), failure())));
    assert!(refused(Message::deserialize_packed(Ok(vec![1, 2, 3]), failure())));
    let torn = NetworkError::Io("corrupt deflate stream".to_string());
    assert!(refused(Message::deserialize_packed(Err(torn), failure())));
}

#[test]
fn what_was_unpacked_is_read() {
    let m = sample();
    let bytes = m.serialize().unwrap();
    assert!(same(&Message::deserialize_unpacked(Ok(bytes)).unwrap(), &m));
    match Message::deserialize_unpacked(Err(NetworkError::Io("corrupt deflate stream".to_string()))) {
        Err(NetworkError::Io(text)) => assert_eq!(text, "corrupt deflate stream"),
        other => panic!("not an I/O error: {:?}", other),
    }
}

#[test]
fn encryption_leaves_the_bytes_as_they_are() {
    let m = sample().encrypted();
    for compression in [false, true] {
        let bytes = m.serialize_with(compression).unwrap();
        assert!(same(&Message::deserialize_with(&bytes, compression).unwrap(), &m));
    }
}
