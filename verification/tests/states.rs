use bytes::Bytes;
use shadownetwork2d::{Duration, Instant, LagCompensation};

const SECOND: u128 = 1_000_000_000;

fn at(nanos: u128) -> Instant {
    Instant { nanos }
}

fn soon() -> Duration {
    Duration { secs: 0, subsec_nanos: 50_000_000 }
}

#[test]
fn closest_state_is_found() {
    let mut lag = LagCompensation::new(10);
    lag.record_state_at(1, Bytes::from("a"), at(100));
    lag.record_state_at(1, Bytes::from("b"), at(200));
    lag.record_state_at(1, Bytes::from("c"), at(400));
    assert_eq!(lag.get_state_at(1, at(0)), Some(Bytes::from("a")));
    assert_eq!(lag.get_state_at(1, at(149)), Some(Bytes::from("a")));
    assert_eq!(lag.get_state_at(1, at(151)), Some(Bytes::from("b")));
    assert_eq!(lag.get_state_at(1, at(999)), Some(Bytes::from("c")));
}

#[test]
fn first_of_equally_close_states_is_found() {
    let mut lag = LagCompensation::new(10);
    lag.record_state_at(1, Bytes::from("a"), at(100));
    lag.record_state_at(1, Bytes::from("b"), at(200));
    assert_eq!(lag.get_state_at(1, at(150)), Some(Bytes::from("a")));
}

#[test]
fn what_was_just_recorded_is_found_again() {
    let mut lag = LagCompensation::new(1);
    lag.record_state_at(1, Bytes::from("a"), at(100));
    lag.record_state_at(1, Bytes::from("b"), at(200));
    assert_eq!(lag.get_state_at(1, at(200)), Some(Bytes::from("b")));
    assert_eq!(lag.get_state_at(1, at(100)), Some(Bytes::from("b")));
}

#[test]
fn unknown_connection_has_no_state() {
    let mut lag = LagCompensation::new(10);
    lag.record_state_at(1, Bytes::from("a"), at(100));
    assert_eq!(lag.get_state_at(2, at(100)), None);
    assert_eq!(lag.predict_state(2, soon()), None);
}

#[test]
fn history_without_room_remembers_nothing() {
    let mut lag = LagCompensation::new(0);
    lag.record_state_at(1, Bytes::from("a"), at(100));
    assert_eq!(lag.get_state_at(1, at(100)), None);
}

#[test]
fn history_forgets_the_oldest_state_first() {
    let mut lag = LagCompensation::new(2);
    lag.record_state_at(1, Bytes::from("a"), at(100));
    lag.record_state_at(1, Bytes::from("b"), at(200));
    lag.record_state_at(1, Bytes::from("c"), at(300));
    assert_eq!(lag.get_state_at(1, at(0)), Some(Bytes::from("b")));
}

#[test]
fn states_are_forgotten_after_a_second() {
    let mut lag = LagCompensation::new(10);
    lag.record_state_at(1, Bytes::from("a"), at(100));
    lag.record_state_at(1, Bytes::from("b"), at(101));
    lag.record_state_at(1, Bytes::from("c"), at(100 + SECOND));
    assert_eq!(lag.get_state_at(1, at(0)), Some(Bytes::from("b")));
}

#[test]
fn prediction_needs_two_states() {
    let mut lag = LagCompensation::new(10);
    lag.record_state_at(1, Bytes::from("a"), at(100));
    assert_eq!(lag.predict_state(1, soon()), None);
    lag.record_state_at(1, Bytes::from("b"), at(200));
    assert_eq!(lag.predict_state(1, soon()), Some(Bytes::from("b")));
    assert_eq!(lag.predict_state(1, Duration { secs: 9, subsec_nanos: 0 }), Some(Bytes::from("b")));
}

#[test]
fn connections_have_histories_of_their_own() {
    let mut lag = LagCompensation::new(10);
    lag.record_state_at(1, Bytes::from("a"), at(100));
    lag.record_state_at(2, Bytes::from("b"), at(100));
    assert_eq!(lag.get_state_at(1, at(100)), Some(Bytes::from("a")));
    assert_eq!(lag.get_state_at(2, at(100)), Some(Bytes::from("b")));
}

#[test]
fn states_are_recorded_by_the_clock() {
    let mut lag = LagCompensation::new(10);
    let before = lag.clock().now();
    lag.record_state(7, Bytes::from("now"));
    let after = lag.clock().now();
    assert!(before.nanos <= after.nanos);
    assert_eq!(lag.get_state_at(7, after), Some(Bytes::from("now")));
}

#[test]
fn longest_run_within_limit_and_second_is_kept() {
    let mut lag = LagCompensation::new(3);
    let half = SECOND / 2;
    for (i, text) in ["a", "b", "c", "d", "e"].iter().enumerate() {
        lag.record_state_at(1, Bytes::from(*text), at(i as u128 * half));
    }
    // "c" is a second old, "d" and "e" are left
    assert_eq!(lag.get_state_at(1, at(0)), Some(Bytes::from("d")));
    assert_eq!(lag.get_state_at(1, at(4 * half)), Some(Bytes::from("e")));
    for (i, text) in ["f", "g", "h"].iter().enumerate() {
        lag.record_state_at(1, Bytes::from(*text), at(4 * half + 1 + i as u128));
    }
    // the limit leaves the last three
    assert_eq!(lag.get_state_at(1, at(0)), Some(Bytes::from("f")));
}
