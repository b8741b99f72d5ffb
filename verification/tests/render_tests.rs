use travel_times::model::{Connection, Journey, Section};
use travel_times::render::{render_connection, render_rail_summary, render_section};

fn walk_section(dep: &str, arr: &str, to: &str) -> Section {
    Section {
        departure: Some(String::from(dep)),
        departure_station: None,
        platform: None,
        arrival: Some(String::from(arr)),
        arrival_station: Some(String::from(to)),
        journey: None,
    }
}

fn ride_section(
    dep: &str,
    from: &str,
    platform: Option<&str>,
    arr: &str,
    to: &str,
    category: &str,
    number: &str,
) -> Section {
    Section {
        departure: Some(String::from(dep)),
        departure_station: Some(String::from(from)),
        platform: platform.map(String::from),
        arrival: Some(String::from(arr)),
        arrival_station: Some(String::from(to)),
        journey: Some(Journey { category: String::from(category), number: String::from(number) }),
    }
}

#[test]
fn walking_leg_renders_as_walk() {
    let s = walk_section("2024-05-01T08:05:00+0100", "2024-05-01T08:12:00+0100", "Bern");
    let line = render_section(&s).unwrap();
    assert_eq!(line, "08:05-08:12 | walk → Bern");
}

#[test]
fn riding_leg_renders_line_stations_platform() {
    let s = ride_section(
        "2024-05-01T08:05:00+0100",
        "Zürich HB",
        Some("7"),
        "2024-05-01T09:03:00+0100",
        "Bern",
        "IC",
        "1",
    );
    let line = render_section(&s).unwrap();
    assert_eq!(line, "08:05-09:03 | Line: IC 1 | via [Zürich HB] → [Bern] | Platform: 7");
}

#[test]
fn missing_platform_renders_dash_and_missing_station_question_mark() {
    let mut s = ride_section(
        "2024-05-01T08:05:00+0100",
        "Zürich HB",
        None,
        "2024-05-01T09:03:00+0100",
        "Bern",
        "S",
        "9",
    );
    s.departure_station = None;
    let line = render_section(&s).unwrap();
    assert_eq!(line, "08:05-09:03 | Line: S 9 | via [?] → [Bern] | Platform: -");
}

#[test]
fn all_empty_category_and_number_trim_to_empty_label() {
    let s = ride_section(
        "2024-05-01T08:05:00+0100",
        "Zürich HB",
        Some("7"),
        "2024-05-01T09:03:00+0100",
        "Bern",
        "",
        "",
    );
    let line = render_section(&s).unwrap();
    assert_eq!(line, "08:05-09:03 | Line:  | via [Zürich HB] → [Bern] | Platform: 7");
}

#[test]
fn empty_category_alone_keeps_the_number() {
    let s = ride_section(
        "2024-05-01T08:05:00+0100",
        "Zürich HB",
        Some("7"),
        "2024-05-01T09:03:00+0100",
        "Bern",
        "",
        "12",
    );
    let line = render_section(&s).unwrap();
    assert_eq!(line, "08:05-09:03 | Line: 12 | via [Zürich HB] → [Bern] | Platform: 7");
}

#[test]
fn leg_without_departure_timestamp_is_skipped() {
    let mut s = walk_section("2024-05-01T08:05:00+0100", "2024-05-01T08:12:00+0100", "Bern");
    s.departure = None;
    assert_eq!(render_section(&s), None);
}

#[test]
fn leg_with_short_timestamp_is_skipped() {
    let mut s = walk_section("2024-05-01T08:05:00+0100", "2024-05-01T08:12:00+0100", "Bern");
    s.arrival = Some(String::from("08:12"));
    assert_eq!(render_section(&s), None);
}

#[test]
fn itinerary_has_header_then_leg_lines() {
    let c = Connection {
        departure_ts: 0,
        arrival_ts: 3600,
        duration: String::from("01:00:00"),
        transfers: 2,
        sections: vec![
            ride_section(
                "2024-05-01T08:05:00+0100",
                "Zürich HB",
                Some("7"),
                "2024-05-01T09:03:00+0100",
                "Bern",
                "IC",
                "1",
            ),
            walk_section("2024-05-01T09:05:00+0100", "2024-05-01T09:12:00+0100", "Bärenplatz"),
        ],
    };
    let lines = render_connection(&c);
    assert_eq!(lines.len(), 3);
    assert_eq!(lines[0], "60 min | Transfers: 2");
    assert_eq!(lines[1], "08:05-09:03 | Line: IC 1 | via [Zürich HB] → [Bern] | Platform: 7");
    assert_eq!(lines[2], "09:05-09:12 | walk → Bärenplatz");
    let joined = render_rail_summary(&c);
    assert_eq!(
        joined,
        "60 min | Transfers: 2\n08:05-09:03 | Line: IC 1 | via [Zürich HB] → [Bern] | Platform: 7\n09:05-09:12 | walk → Bärenplatz"
    );
}

#[test]
fn unparseable_duration_renders_zero_minutes() {
    let c = Connection {
        departure_ts: 0,
        arrival_ts: 3600,
        duration: String::from("?"),
        transfers: 0,
        sections: Vec::new(),
    };
    let lines = render_connection(&c);
    assert_eq!(lines.len(), 1);
    assert_eq!(lines[0], "0 min | Transfers: 0");
}
