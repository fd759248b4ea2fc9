use bytes::Bytes;
use shadownetwork2d::{
    new_connection_id, AntiCheat, Instant, Message, MessageType, MessageValidator, NetworkError,
    RateLimiter,
};

const SECOND: u128 = 1_000_000_000;

fn at(nanos: u128) -> Instant {
    Instant { nanos }
}

fn ping() -> Message {
    Message::stamped(0, 0, MessageType::Ping, Bytes::new())
}

fn custom(name: &str) -> Message {
    Message::stamped(0, 0, MessageType::Custom(name.to_string()), Bytes::new())
}

#[test]
fn test_rate_limiter() {
    let mut limiter = RateLimiter::new(5);
    let connection_id = new_connection_id();

    for _ in 0..5 {
        assert!(limiter.check(connection_id));
    }

    assert!(!limiter.check(connection_id));
}

#[test]
fn budget_is_spent_within_a_second() {
    let mut limiter = RateLimiter::new(3);
    let admitted: Vec<bool> = (0..6u128).map(|i| limiter.check_at(1, at(100 + i))).collect();
    assert_eq!(admitted, vec![true, true, true, false, false, false]);
}

#[test]
fn window_expires_after_exactly_a_second() {
    let mut limiter = RateLimiter::new(1);
    assert!(limiter.check_at(1, at(100)));
    assert!(!limiter.check_at(1, at(99 + SECOND)));
    assert!(limiter.check_at(1, at(100 + SECOND)));
    assert!(!limiter.check_at(1, at(101 + SECOND)));
}

#[test]
fn every_window_has_the_same_budget() {
    let mut limiter = RateLimiter::new(2);
    let tenths: Vec<u128> = vec![0, 3, 9, 10, 11, 19, 25, 26, 34, 35];
    let admitted: Vec<bool> =
        tenths.iter().map(|t| limiter.check_at(1, at(t * SECOND / 10))).collect();
    assert_eq!(
        admitted,
        vec![true, true, false, true, true, false, true, true, false, true]
    );
}

#[test]
fn limit_of_zero_admits_only_what_opens_a_new_window() {
    let mut limiter = RateLimiter::new(0);
    assert!(!limiter.check_at(1, at(0)));
    assert!(limiter.check_at(1, at(SECOND)));
    assert!(!limiter.check_at(1, at(SECOND + 1)));
}

#[test]
fn connections_are_limited_one_by_one() {
    let mut limiter = RateLimiter::new(1);
    assert!(limiter.check_at(1, at(0)));
    assert!(!limiter.check_at(1, at(1)));
    assert!(limiter.check_at(2, at(1)));
}

#[test]
fn cloned_limiter_counts_for_itself() {
    let mut limiter = RateLimiter::new(2);
    assert!(limiter.check_at(1, at(0)));
    let mut other = limiter.clone();
    assert!(limiter.check_at(1, at(1)));
    assert!(!limiter.check_at(1, at(2)));
    assert!(other.check_at(1, at(2)));
    assert!(!other.check_at(1, at(3)));
}

#[test]
fn test_message_validation() {
    let validator = MessageValidator::new(1024);

    let valid_msg = Message::new(MessageType::Data, Bytes::from("test"));
    assert!(validator.validate(&valid_msg).is_ok());

    let large_data = vec![0u8; 2048];
    let invalid_msg = Message::new(MessageType::Data, Bytes::from(large_data));
    assert!(validator.validate(&invalid_msg).is_err());
}

#[test]
fn largest_message_is_accepted() {
    let validator = MessageValidator::new(4);
    let fits = Message::new(MessageType::Heartbeat, Bytes::from("four"));
    assert!(validator.validate(&fits).is_ok());
    let too_large = Message::new(MessageType::Heartbeat, Bytes::from("fives"));
    assert!(matches!(validator.validate(&too_large), Err(NetworkError::MessageTooLarge)));
}

#[test]
fn data_messages_have_to_carry_data() {
    let validator = MessageValidator::new(4);
    let data = Message::new(MessageType::Data, Bytes::new());
    assert!(matches!(validator.validate(&data), Err(NetworkError::InvalidMessage)));
    assert!(matches!(validator.validate(&custom("chat")), Err(NetworkError::InvalidMessage)));
    assert!(validator.validate(&ping()).is_ok());
}

#[test]
fn flood_of_one_kind_is_caught() {
    let mut watch = AntiCheat::new();
    for i in 0..10u128 {
        assert!(watch.analyze_message_at(1, &ping(), at(i)));
    }
    assert!(!watch.analyze_message_at(1, &ping(), at(10)));
}

#[test]
fn who_keeps_flooding_becomes_suspicious() {
    let mut watch = AntiCheat::new();
    for i in 0..15u128 {
        watch.analyze_message_at(1, &ping(), at(i));
        assert!(!watch.is_suspicious(1));
    }
    watch.analyze_message_at(1, &ping(), at(15));
    assert!(watch.is_suspicious(1));
    assert!(!watch.is_suspicious(2));
}

#[test]
fn custom_messages_are_of_one_kind_whatever_their_text() {
    let mut watch = AntiCheat::new();
    for i in 0..10u128 {
        assert!(watch.analyze_message_at(1, &custom(if i % 2 == 0 { "a" } else { "b" }), at(i)));
    }
    assert!(!watch.analyze_message_at(1, &custom("c"), at(10)));
    assert!(watch.analyze_message_at(1, &ping(), at(11)));
}

#[test]
fn only_the_last_second_counts_towards_a_kind() {
    let mut watch = AntiCheat::new();
    for i in 0..10u128 {
        assert!(watch.analyze_message_at(1, &ping(), at(i)));
    }
    assert!(watch.analyze_message_at(1, &ping(), at(9 + SECOND)));
}

#[test]
fn more_than_a_hundred_messages_in_ten_seconds_are_too_many() {
    let mut watch = AntiCheat::new();
    for i in 0..100u128 {
        assert!(watch.analyze_message_at(1, &ping(), at(i * SECOND / 10)), "message {}", i);
    }
    // the first message is now less than ten seconds old
    assert!(!watch.analyze_message_at(1, &ping(), at(10 * SECOND - 1)));
    // twenty seconds on, nothing of that is left
    assert!(watch.analyze_message_at(1, &ping(), at(30 * SECOND)));
}

#[test]
fn messages_of_any_kinds_count_together() {
    let mut watch = AntiCheat::new();
    // ten of each kind, so that no kind is too frequent
    for i in 0..100u128 {
        let message = Message::stamped(
            0,
            0,
            MessageType::plain((i / 10) as u32),
            Bytes::new(),
        );
        assert!(watch.analyze_message_at(1, &message, at(i)), "message {}", i);
    }
    assert!(!watch.analyze_message_at(1, &custom("one more"), at(100)));
    // those of the first instant are ten seconds old, the refused one counts
    assert!(!watch.analyze_message_at(1, &custom("again"), at(10 * SECOND)));
    assert!(watch.analyze_message_at(1, &custom("again"), at(10 * SECOND + 2)));
}

#[test]
fn clearing_gives_a_clean_slate() {
    let mut watch = AntiCheat::new();
    for i in 0..20u128 {
        watch.analyze_message_at(1, &ping(), at(i));
        watch.analyze_message_at(2, &ping(), at(i));
    }
    watch.clear_flags(1);
    assert!(!watch.is_suspicious(1));
    assert!(watch.analyze_message_at(1, &ping(), at(21)));
    assert!(watch.is_suspicious(2));
    assert!(!watch.analyze_message_at(2, &ping(), at(21)));
}

#[test]
fn messages_are_analysed_as_they_come() {
    let mut watch = AntiCheat::new();
    let id = new_connection_id();
    for _ in 0..10 {
        assert!(watch.analyze_message(id, &ping()));
    }
    assert!(!watch.analyze_message(id, &ping()));
    assert!(watch.analyze_message(new_connection_id(), &ping()));
}
