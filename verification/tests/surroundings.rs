use bytes::Bytes;
use shadownetwork2d::time::{to_timestamp, MAX_DURATION_NANOS};
use shadownetwork2d::{
    Clock, Duration, Instant, Message, MessageType, NATTraversal, NetworkConfig, NetworkError, NetworkManager,
    NetworkMetrics, NetworkStats, SocketAddr,
};

fn millis(n: u32) -> Duration {
    Duration { secs: 0, subsec_nanos: n * 1_000_000 }
}

#[test]
fn default_configuration() {
    let c = NetworkConfig::default();
    assert_eq!(c.max_connections, 1000);
    assert_eq!(c.buffer_size, 8192);
    assert!(!c.compression);
    assert!(!c.encryption);
    assert_eq!(c.heartbeat_interval, 30000);
    assert_eq!(c.rate_limit_per_second, 60);
    assert_eq!(c.max_message_size, 1024 * 1024);
    assert!(!c.enable_metrics);
    assert_eq!(c.connection_timeout, 60000);
    assert_eq!(c.max_rooms, 100);
    assert_eq!(c.max_travelers_per_room, 50);
}

#[test]
fn errors_in_words() {
    let text = |s: &str| s.to_string();
    let cases = vec![
        (NetworkError::ConnectionFailed(text("x")), "Connection failed: x"),
        (NetworkError::Serialization(text("x")), "Serialization error: x"),
        (NetworkError::Io(text("x")), "IO error: x"),
        (NetworkError::Timeout, "Timeout"),
        (NetworkError::Disconnected, "Disconnected"),
        (NetworkError::RoomFull, "Room full"),
        (NetworkError::RoomNotFound(text("x")), "Room not found: x"),
        (NetworkError::AuthenticationFailed, "Authentication failed"),
        (NetworkError::RateLimitExceeded, "Rate limit exceeded"),
        (NetworkError::MessageTooLarge, "Message too large"),
        (NetworkError::InvalidMessage, "Invalid message format"),
        (NetworkError::PermissionDenied, "Permission denied"),
        (NetworkError::AddressParse(text("x")), "Address parse error: x"),
    ];
    for (error, words) in cases {
        assert_eq!(error.message(), words);
    }
}

#[test]
fn manager_makes_hosts_of_its_configuration() {
    let config = NetworkConfig { max_rooms: 1, ..NetworkConfig::default() };
    let manager = NetworkManager::new(config);
    assert_eq!(*manager.config(), config);
    let mut host = manager.create_host();
    assert!(host.create_room("a".to_string(), 1, 5).is_ok());
    assert!(matches!(host.create_room("b".to_string(), 1, 5), Err(NetworkError::RoomFull)));
    assert_eq!(manager.create_traveler().connection_id(), None);
}

#[test]
fn manager_hands_on_whether_compression_is_available() {
    let manager = NetworkManager::new_with(NetworkConfig::default(), true);
    let mut host = manager.create_host();
    host.traveler_arrived_at(1, SocketAddr::V4 { ip: 1, port: 2 }, Instant { nanos: 0 });
    let m = Message::stamped(1, 2, MessageType::Ping, Bytes::new()).compressed();
    assert_eq!(host.send_to_traveler(1, &m).unwrap()[0], 0x1f);
    let mut traveler = manager.create_traveler();
    assert!(traveler.travel_to_tcp(SocketAddr::V4 { ip: 1, port: 2 }, Ok(())).is_ok());
    assert_eq!(traveler.send_tcp(&m).unwrap()[0], 0x1f);
}

#[test]
fn manager_keeps_lists_of_its_own() {
    let manager = NetworkManager::new(NetworkConfig::default());
    let mut host = manager.create_host();
    assert!(host.create_room("a".to_string(), 1, 5).is_ok());
    host.traveler_arrived(SocketAddr::V4 { ip: 1, port: 2 });
    assert!(manager.global_connections().is_empty());
    assert!(manager.global_rooms().is_empty());
    let s = manager.stats_at(12);
    assert_eq!(s, NetworkStats { uptime_seconds: 12, ..NetworkStats::default() });
    assert!(manager.stats().uptime_seconds < 20);
}

#[test]
fn external_address_is_unspecified() {
    let t = NATTraversal::new();
    assert_eq!(t.discover_external_address().unwrap(), SocketAddr::V4 { ip: 0, port: 0 });
}

#[test]
fn stun_servers_are_known() {
    let shown = format!("{:?}", NATTraversal::new());
    assert!(shown.contains("\"stun.l.google.com:19302\""));
    assert!(shown.contains("\"stun1.l.google.com:19302\""));
    assert!(shown.contains("\"stun2.l.google.com:19302\""));
}

#[test]
fn port_mappings_are_kept() {
    let mut t = NATTraversal::new();
    assert!(!format!("{:?}", t).contains("7001"));
    assert!(t.create_port_mapping(8001, 7001).is_ok());
    assert!(t.create_port_mapping(8002, 7002).is_ok());
    assert!(t.create_port_mapping(8003, 7001).is_ok());
    let shown = format!("{:?}", t);
    assert!(shown.contains("7001: V4 { ip: 2130706433, port: 8003 }"));
    assert!(shown.contains("7002: V4 { ip: 2130706433, port: 8002 }"));
    assert!(!shown.contains("8001"));
}

#[test]
fn holes_are_punched_five_times() {
    let t = NATTraversal::new();
    let mut done: u32 = 0;
    while let Some(round) = t.hole_punch(done) {
        assert_eq!(round.payload, b"PUNCH");
        assert_eq!(round.pause_millis, 100);
        done += 1;
    }
    assert_eq!(done, 5);
    assert!(t.hole_punch(u32::MAX).is_none());
}

#[test]
fn messages_and_bytes_are_counted() {
    let mut m = NetworkMetrics::new();
    m.record_message(100);
    m.record_message(28);
    assert_eq!(m.messages_per_second, 2);
    assert_eq!(m.bytes_per_second, 128);
    m.record_connection();
    m.reset_counters();
    assert_eq!(m.messages_per_second, 0);
    assert_eq!(m.bytes_per_second, 0);
    assert_eq!(m.connection_count, 1);
}

#[test]
fn disconnection_undoes_connection() {
    let mut m = NetworkMetrics::new();
    m.record_connection();
    m.record_connection();
    m.record_disconnection();
    assert_eq!(m.connection_count, 1);
    m.record_disconnection();
    m.record_disconnection();
    assert_eq!(m.connection_count, u64::MAX);
    m.record_connection();
    assert_eq!(m.connection_count, 0);
}

#[test]
fn counters_wrap_around() {
    let mut m = NetworkMetrics::new();
    m.record_message(u64::MAX);
    m.record_message(2);
    assert_eq!(m.bytes_per_second, 1);
}

#[test]
fn mean_of_no_samples_is_none() {
    assert_eq!(NetworkMetrics::new().average_latency(), None);
}

#[test]
fn mean_is_rounded_down() {
    let mut m = NetworkMetrics::new();
    m.record_latency(millis(10));
    m.record_latency(millis(20));
    m.record_latency(Duration { secs: 1, subsec_nanos: 1 });
    assert_eq!(m.total_latency(), 1_030_000_001);
    assert_eq!(m.average_latency(), Some(Duration { secs: 0, subsec_nanos: 343_333_333 }));
}

#[test]
fn mean_may_be_longer_than_a_second() {
    let mut m = NetworkMetrics::new();
    m.record_latency(Duration { secs: 3, subsec_nanos: 0 });
    m.record_latency(Duration { secs: 4, subsec_nanos: 0 });
    assert_eq!(m.average_latency(), Some(Duration { secs: 3, subsec_nanos: 500_000_000 }));
}

#[test]
fn latest_thousand_samples_are_kept() {
    let mut m = NetworkMetrics::new();
    m.record_latency(millis(900));
    for _ in 0..1000 {
        m.record_latency(millis(5));
    }
    assert_eq!(m.latency_samples.len(), 1000);
    assert_eq!(m.average_latency(), Some(millis(5)));
}

#[test]
fn mean_is_that_of_the_latest_samples() {
    let mut m = NetworkMetrics::new();
    for i in 0..2500u64 {
        m.record_latency(Duration { secs: i, subsec_nanos: 0 });
    }
    // of 1500, 1501, .., 2499 seconds
    assert_eq!(m.average_latency(), Some(Duration { secs: 1999, subsec_nanos: 500_000_000 }));
}

#[test]
fn spans_are_converted_exactly() {
    let d = Duration { secs: 2, subsec_nanos: 3 };
    assert_eq!(d.as_nanos(), 2_000_000_003);
    assert_eq!(Duration::from_nanos(2_000_000_003), d);
    let longest = Duration { secs: u64::MAX, subsec_nanos: 999_999_999 };
    assert_eq!(longest.as_nanos(), MAX_DURATION_NANOS);
    assert_eq!(Duration::from_nanos(MAX_DURATION_NANOS), longest);
}

#[test]
fn spans_between_instants() {
    let (early, late) = (Instant { nanos: 5 }, Instant { nanos: 12 });
    assert_eq!(late.nanos_since(early), 7);
    assert_eq!(early.nanos_since(late), 0);
    assert_eq!(late.nanos_between(early), 7);
    assert_eq!(early.nanos_between(late), 7);
}

#[test]
fn clock_runs_forward() {
    let clock = Clock::start();
    let a = clock.now();
    let b = clock.now();
    assert!(a.nanos <= b.nanos);
    assert!(clock.uptime_seconds() < 20);
    assert!(clock.origin().elapsed().as_nanos() >= b.nanos);
}

#[test]
fn timestamps_are_made_of_readings() {
    assert_eq!(to_timestamp(Some(1_700_000_000_123)), 1_700_000_000_123);
    assert_eq!(to_timestamp(Some((1u128 << 64) + 5)), 5);
    assert_eq!(to_timestamp(None), 0);
}

#[test]
fn whole_seconds_are_rounded_down() {
    assert_eq!(Instant { nanos: 999_999_999 }.whole_seconds(), 0);
    assert_eq!(Instant { nanos: 61_999_999_999 }.whole_seconds(), 61);
    assert_eq!(Instant { nanos: MAX_DURATION_NANOS }.whole_seconds(), u64::MAX);
}
