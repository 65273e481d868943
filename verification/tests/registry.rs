use seat_sync::performance_types::{ClientInfo, PerformanceState};
use seat_sync::protocol::{ProtocolError, Reply};

fn joined(reply: Reply) -> (String, String, u64) {
    match reply {
        Reply::Joined { id, seat, expires_at } => (id, seat, expires_at),
        other => panic!("expected a joined reply, got {:?}", other),
    }
}

fn refused(reply: Reply) -> ProtocolError {
    match reply {
        Reply::Error(error) => error,
        other => panic!("expected an error reply, got {:?}", other),
    }
}

#[test]
fn join_claims_the_seat_until_now_plus_ttl() {
    let mut registry = PerformanceState::new(30_000);
    let reply = registry.join("3", "client-a".to_string(), 1_000, 7);
    assert_eq!(joined(reply), ("client-a".to_string(), "3".to_string(), 31_000));
    assert_eq!(registry.seat_count(), 1);
    assert_eq!(registry.seat_at(0), "3");
    let info = registry.client_of("3").unwrap();
    assert_eq!(info.id, "client-a");
    assert_eq!(info.expires_at, 31_000);
    assert_eq!(info.sender, Some(7));
    assert_eq!(registry.seat_of("client-a"), Some("3"));
}

#[test]
fn second_join_of_seat_three_is_refused_and_first_client_stays() {
    let mut registry = PerformanceState::new(5_000);
    let first = joined(registry.join("3", "first".to_string(), 10, 1));
    let second = registry.join("3", "second".to_string(), 20, 2);
    assert_eq!(refused(second), ProtocolError::SeatTaken);
    assert_eq!(registry.seat_count(), 1);
    let info = registry.client_of("3").unwrap();
    assert_eq!(info.id, first.0);
    assert_eq!(info.expires_at, 5_010);
    assert_eq!(info.sender, Some(1));
    assert_eq!(registry.seat_of("second"), None);
}

#[test]
fn join_without_a_seat_is_refused() {
    let mut registry = PerformanceState::new(1);
    assert_eq!(refused(registry.join("", "id".to_string(), 0, 0)), ProtocolError::InvalidSeat);
    assert_eq!(registry.seat_count(), 0);
}

#[test]
fn join_with_a_used_or_empty_identifier_is_refused() {
    let mut registry = PerformanceState::new(1);
    joined(registry.join("1", "same".to_string(), 0, 0));
    assert_eq!(refused(registry.join("2", "same".to_string(), 0, 0)), ProtocolError::IdUnavailable);
    assert_eq!(refused(registry.join("2", String::new(), 0, 0)), ProtocolError::IdUnavailable);
    assert_eq!(registry.seat_count(), 1);
    assert!(registry.client_of("2").is_none());
}

#[test]
fn seat_taken_is_said_before_the_identifier_is_looked_at() {
    let mut registry = PerformanceState::new(1);
    joined(registry.join("1", "same".to_string(), 0, 0));
    assert_eq!(refused(registry.join("1", "same".to_string(), 0, 0)), ProtocolError::SeatTaken);
    assert_eq!(refused(registry.join("", "same".to_string(), 0, 0)), ProtocolError::InvalidSeat);
}

#[test]
fn expiry_stops_at_the_largest_instant() {
    let mut registry = PerformanceState::new(u64::MAX);
    let (_, _, expires_at) = joined(registry.join("1", "a".to_string(), 5, 0));
    assert_eq!(expires_at, u64::MAX);
    let mut registry = PerformanceState::new(10);
    let (_, _, expires_at) = joined(registry.join("1", "a".to_string(), u64::MAX - 10, 0));
    assert_eq!(expires_at, u64::MAX);
    let (_, _, expires_at) = joined(registry.join("2", "b".to_string(), u64::MAX - 11, 0));
    assert_eq!(expires_at, u64::MAX - 1);
}

#[test]
fn rejoin_with_unknown_id_is_session_not_found() {
    let mut registry = PerformanceState::new(100);
    joined(registry.join("1", "known".to_string(), 0, 1));
    assert_eq!(refused(registry.rejoin("unknown", 2)), ProtocolError::SessionNotFound);
    assert_eq!(registry.client_of("1").unwrap().sender, Some(1));
}

#[test]
fn rejoin_without_id_is_missing_id() {
    let mut registry = PerformanceState::new(100);
    assert_eq!(refused(registry.rejoin("", 2)), ProtocolError::RejoinMissingId);
}

#[test]
fn rejoin_returns_the_seat_and_the_expiry_of_the_join() {
    let mut registry = PerformanceState::new(60_000);
    let (id, seat, expires_at) = joined(registry.join("12", "abc".to_string(), 1_000_000, 4));
    joined(registry.join("13", "def".to_string(), 2_000_000, 5));
    let again = joined(registry.rejoin("abc", 9));
    assert_eq!(again, (id, seat, expires_at));
    assert_eq!(again.2, 1_060_000);
    let info = registry.client_of("12").unwrap();
    assert_eq!(info.sender, Some(9));
    assert_eq!(info.expires_at, 1_060_000);
    assert_eq!(registry.client_of("13").unwrap().sender, Some(5));
    assert_eq!(registry.seat_at(0), "12");
    assert_eq!(registry.seat_at(1), "13");
    let once_more = joined(registry.rejoin("abc", 11));
    assert_eq!(once_more.2, 1_060_000);
}

#[test]
fn senders_lists_every_claimed_seat_in_order() {
    let mut registry = PerformanceState::new(1);
    assert_eq!(registry.senders(), Vec::<u64>::new());
    joined(registry.join("b", "1".to_string(), 0, 30));
    joined(registry.join("a", "2".to_string(), 0, 10));
    joined(registry.join("c", "3".to_string(), 0, 20));
    assert_eq!(registry.senders(), vec![30, 10, 20]);
    joined(registry.rejoin("2", 99));
    assert_eq!(registry.senders(), vec![30, 99, 20]);
}

#[test]
fn new_and_default_registries_are_empty() {
    let registry = PerformanceState::new(42);
    assert_eq!(registry.session_ttl_ms(), 42);
    assert_eq!(registry.start_time(), None);
    assert_eq!(registry.seat_count(), 0);
    let registry = PerformanceState::default();
    assert_eq!(registry.session_ttl_ms(), 0);
    assert_eq!(registry.seat_count(), 0);
    assert_eq!(registry.find_id("x"), None);
    let info = ClientInfo::default();
    assert_eq!(info.id, "");
    assert_eq!(info.expires_at, 0);
    assert_eq!(info.sender, None);
}

#[test]
fn client_at_walks_the_seats() {
    let mut registry = PerformanceState::new(1);
    joined(registry.join("x", "one".to_string(), 0, 1));
    joined(registry.join("y", "two".to_string(), 0, 2));
    assert_eq!(registry.client_at(1).id, "two");
    assert_eq!(registry.find_id("two"), Some(1));
    assert_eq!(registry.find_id("one"), Some(0));
}
