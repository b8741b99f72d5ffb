use travel_times::driving::driving_report;
use travel_times::errors::{RouteError, TransitError};
use travel_times::extract::connections_from_body;
use travel_times::rail::rail_report;

// 2024-05-01T08:00:00+0000.
const NOW: i64 = 1714550400;

fn scenario_body() -> String {
    // Two candidates: one departs in 5 minutes and arrives 65 minutes from
    // the capture instant (cost 5 + 60); one departs in 2 minutes and
    // arrives 200 minutes from it (cost 2 + 198).
    let mut body = String::from("{\"connections\": [");
    body.push_str("{\"from\": {\"departure\": \"2024-05-01T08:05:00+0000\"},");
    body.push_str(" \"to\": {\"arrival\": \"2024-05-01T09:05:00+0000\"},");
    body.push_str(" \"duration\": \"01:00:00\", \"transfers\": 0,");
    body.push_str(" \"sections\": [");
    body.push_str("{\"departure\": {\"departure\": \"2024-05-01T08:05:00+0000\",");
    body.push_str("  \"station\": {\"name\": \"Zürich HB\"}, \"platform\": \"7\"},");
    body.push_str(" \"arrival\": {\"arrival\": \"2024-05-01T09:05:00+0000\",");
    body.push_str("  \"station\": {\"name\": \"Bern\"}},");
    body.push_str(" \"journey\": {\"category\": \"IC\", \"number\": \"1\"}}");
    body.push_str("]},");
    body.push_str("{\"from\": {\"departure\": \"2024-05-01T08:02:00+0000\"},");
    body.push_str(" \"to\": {\"arrival\": \"2024-05-01T11:20:00+0000\"},");
    body.push_str(" \"duration\": \"03:18:00\", \"transfers\": 2,");
    body.push_str(" \"sections\": []}");
    body.push_str("]}");
    body
}

#[test]
fn extracts_connection_fields() {
    let conns = connections_from_body(&scenario_body()).unwrap();
    assert_eq!(conns.len(), 2);
    assert_eq!(conns[0].departure_ts, NOW + 300);
    assert_eq!(conns[0].arrival_ts, NOW + 3900);
    assert_eq!(conns[0].duration, "01:00:00");
    assert_eq!(conns[0].transfers, 0);
    assert_eq!(conns[0].sections.len(), 1);
    let s = &conns[0].sections[0];
    assert_eq!(s.departure.as_deref(), Some("2024-05-01T08:05:00+0000"));
    assert_eq!(s.departure_station.as_deref(), Some("Zürich HB"));
    assert_eq!(s.platform.as_deref(), Some("7"));
    assert_eq!(s.arrival_station.as_deref(), Some("Bern"));
    let j = s.journey.as_ref().unwrap();
    assert_eq!(j.category, "IC");
    assert_eq!(j.number, "1");
    assert_eq!(conns[1].transfers, 2);
    assert_eq!(conns[1].sections.len(), 0);
}

#[test]
fn end_to_end_scenario_picks_the_faster_later_departure() {
    let conns = connections_from_body(&scenario_body()).unwrap();
    let report = rail_report(NOW, &conns).unwrap();
    let mut lines = report.lines();
    assert_eq!(lines.next(), Some("60 min | Transfers: 0"));
    assert_eq!(
        lines.next(),
        Some("08:05-09:05 | Line: IC 1 | via [Zürich HB] → [Bern] | Platform: 7")
    );
    assert_eq!(lines.next(), None);
}

#[test]
fn non_json_body_is_invalid() {
    assert_eq!(
        connections_from_body("not json").unwrap_err(),
        TransitError::InvalidResponse
    );
}

#[test]
fn missing_connections_array_is_invalid() {
    assert_eq!(
        connections_from_body("{\"foo\": 1}").unwrap_err(),
        TransitError::InvalidResponse
    );
    assert_eq!(
        connections_from_body("{\"connections\": 3}").unwrap_err(),
        TransitError::InvalidResponse
    );
}

#[test]
fn missing_departure_timestamp_is_fatal() {
    let body = "{\"connections\": [{\"to\": {\"arrival\": \"2024-05-01T09:05:00+0000\"}}]}";
    assert_eq!(connections_from_body(body).unwrap_err(), TransitError::BadTimestamp);
}

#[test]
fn unparseable_timestamp_is_fatal() {
    let mut body = String::from("{\"connections\": [{\"from\": {\"departure\": \"yesterday\"},");
    body.push_str(" \"to\": {\"arrival\": \"2024-05-01T09:05:00+0000\"}}]}");
    assert_eq!(connections_from_body(&body).unwrap_err(), TransitError::BadTimestamp);
}

#[test]
fn empty_connections_array_reports_no_connections() {
    let conns = connections_from_body("{\"connections\": []}").unwrap();
    assert_eq!(conns.len(), 0);
    assert_eq!(rail_report(NOW, &conns).unwrap_err(), TransitError::NoConnections);
}

#[test]
fn driving_error_leaves_the_rail_chain_unaffected() {
    // The driving response lacked routes[0].summary.duration: its chain
    // reports the error...
    let drive = driving_report(None);
    assert_eq!(drive.unwrap_err(), RouteError);
    assert_eq!(RouteError.message(), "Missing or invalid duration");
    // ...and the rail chain still renders its result.
    let conns = connections_from_body(&scenario_body()).unwrap();
    let report = rail_report(NOW, &conns).unwrap();
    assert!(report.starts_with("60 min | Transfers: 0"));
}

#[test]
fn driving_report_renders_minutes() {
    assert_eq!(driving_report(Some(42)).unwrap(), "42 min");
    assert_eq!(driving_report(Some(0)).unwrap(), "0 min");
}

#[test]
fn transit_error_messages() {
    assert_eq!(TransitError::InvalidResponse.message(), "Invalid API response");
    assert_eq!(TransitError::NoConnections.message(), "No connections found");
    assert_eq!(TransitError::BadTimestamp.message(), "Unparseable connection timestamp");
}
