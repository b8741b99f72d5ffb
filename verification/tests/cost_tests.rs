use travel_times::cost::{connection_cost, minutes_between, select_best};
use travel_times::errors::TransitError;
use travel_times::model::Connection;

fn conn(departure_ts: i64, arrival_ts: i64) -> Connection {
    Connection {
        departure_ts,
        arrival_ts,
        duration: String::from("00:00:00"),
        transfers: 0,
        sections: Vec::new(),
    }
}

#[test]
fn minutes_between_whole_minutes() {
    assert_eq!(minutes_between(0, 3600), 60);
    assert_eq!(minutes_between(1000, 1000), 0);
}

#[test]
fn minutes_between_truncates_toward_zero() {
    assert_eq!(minutes_between(0, 119), 1);
    assert_eq!(minutes_between(119, 0), -1);
    assert_eq!(minutes_between(59, 0), 0);
}

#[test]
fn cost_adds_wait_and_ride() {
    let now = 1_000_000;
    // Departs in 5 minutes, rides for 60.
    let c = conn(now + 300, now + 300 + 3600);
    assert_eq!(connection_cost(now, &c), 65);
}

#[test]
fn departed_connection_waits_nothing() {
    let now = 1_000_000;
    // Departed 10 minutes ago, rides for 60: no negative wait.
    let c = conn(now - 600, now - 600 + 3600);
    assert_eq!(connection_cost(now, &c), 60);
}

#[test]
fn selector_rejects_empty_list() {
    let conns: Vec<Connection> = Vec::new();
    assert_eq!(select_best(0, &conns), Err(TransitError::NoConnections));
}

#[test]
fn selector_picks_least_cost_not_first_departure() {
    let now = 1_000_000;
    // Departs in 5 minutes, arrives 65 minutes from now: cost 5 + 60.
    let fast = conn(now + 300, now + 3900);
    // Departs in 2 minutes, arrives 200 minutes from now: cost 2 + 198.
    let slow = conn(now + 120, now + 12000);
    let conns = vec![fast, slow];
    assert_eq!(select_best(now, &conns), Ok(0));
    // The same two in the other order: the later-departing one still wins.
    let slow = conn(now + 120, now + 12000);
    let fast = conn(now + 300, now + 3900);
    let conns = vec![slow, fast];
    assert_eq!(select_best(now, &conns), Ok(1));
}

#[test]
fn selector_member_of_input() {
    let now = 0;
    let conns = vec![conn(600, 1200), conn(60, 6000), conn(300, 900)];
    let i = select_best(now, &conns).unwrap();
    assert!(i < conns.len());
}

#[test]
fn tie_goes_to_the_first_in_input_order() {
    let now = 1_000_000;
    // Identical cost: 5 minutes wait, 30 minutes ride.
    let a = conn(now + 300, now + 2100);
    let b = conn(now + 300, now + 2100);
    let conns = vec![a, b];
    assert_eq!(select_best(now, &conns), Ok(0));
}
