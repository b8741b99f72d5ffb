//! Extraction of connection records from the transit service's response
//! body, through serde_json.
//!
//! The response is a JSON document with a `connections` array. Out of
//! each element this module reads the departure and arrival instants
//! (required: a connection whose timestamps are missing or unreadable
//! makes the whole extraction fail, as the selection could not rank it),
//! the duration text, the transfer count, and the legs. Optional fields
//! degrade to placeholders: a missing duration text becomes `"?"`, a
//! missing or negative transfer count becomes zero, and a missing legs
//! array becomes an empty one.
//!
//! serde_json's readings are deterministic in their inputs, so each gets
//! a name (`spec_json_doc`, `spec_json_get`, ...); the extraction's own
//! contract says over those names exactly when each error comes.

use vstd::prelude::*;

use crate::errors::TransitError;
use crate::model::{Connection, Journey, Section};
use crate::timestamp::{epoch_seconds_of, parse_epoch_seconds};

verus! {

/// serde_json's JSON document type, opaque to this crate's proofs.
#[verifier::external_type_specification]
#[verifier::external_body]
pub struct ExValue(serde_json::Value);

/// What serde_json's `from_str` reads out of a text: the JSON document,
/// or nothing for a text that is not JSON.
pub uninterp spec fn spec_json_doc(s: Seq<char>) -> Option<serde_json::Value>;

/// What serde_json's `Value::get` finds under a string key: the value,
/// when this is an object that has the key.
pub uninterp spec fn spec_json_get(v: serde_json::Value, key: Seq<char>) -> Option<
    serde_json::Value,
>;

/// What serde_json's `Value::as_str` reads: the text of a JSON string.
pub uninterp spec fn spec_json_str(v: serde_json::Value) -> Option<Seq<char>>;

/// What serde_json's `Value::as_i64` reads: the value of a JSON integer
/// that fits.
pub uninterp spec fn spec_json_i64(v: serde_json::Value) -> Option<i64>;

/// What serde_json's `Value::as_array` reads: the elements of a JSON
/// array.
pub uninterp spec fn spec_json_array(v: serde_json::Value) -> Option<Seq<serde_json::Value>>;

/// Whether a JSON value is `null`, as serde_json's `Value::is_null` has
/// it.
pub uninterp spec fn spec_json_null(v: serde_json::Value) -> bool;

/// Relies on serde_json's `from_str`: reads a JSON document out of a
/// text, or fails on a text that is not JSON. The result depends on the
/// text alone.
#[verifier::external_body]
fn json_parse(body: &str) -> (r: Option<serde_json::Value>)
    ensures
        r == spec_json_doc(body@),
{
    serde_json::from_str(body).ok()
}

/// Relies on serde_json's `Value::get` with a string key: the value
/// under the key, when this is an object that has it.
#[verifier::external_body]
fn json_get<'a>(v: &'a serde_json::Value, key: &str) -> (r: Option<&'a serde_json::Value>)
    ensures
        (r is Some) == (spec_json_get(*v, key@) is Some),
        r matches Some(x) ==> Some(*x) == spec_json_get(*v, key@),
{
    v.get(key)
}

/// Relies on serde_json's `Value::as_str`: the text of a JSON string.
#[verifier::external_body]
fn json_as_str<'a>(v: &'a serde_json::Value) -> (r: Option<&'a str>)
    ensures
        (r is Some) == (spec_json_str(*v) is Some),
        r matches Some(s) ==> Some(s@) == spec_json_str(*v),
{
    v.as_str()
}

/// Relies on serde_json's `Value::as_i64`: the value of a JSON integer
/// that fits.
#[verifier::external_body]
fn json_as_i64(v: &serde_json::Value) -> (r: Option<i64>)
    ensures
        r == spec_json_i64(*v),
{
    v.as_i64()
}

/// Relies on serde_json's `Value::as_array`: the elements of a JSON
/// array.
#[verifier::external_body]
fn json_as_array<'a>(v: &'a serde_json::Value) -> (r: Option<&'a Vec<serde_json::Value>>)
    ensures
        (r is Some) == (spec_json_array(*v) is Some),
        r matches Some(a) ==> Some(a@) == spec_json_array(*v),
{
    v.as_array()
}

/// Relies on serde_json's `Value::is_null`: whether this is JSON `null`.
#[verifier::external_body]
fn json_is_null(v: &serde_json::Value) -> (r: bool)
    ensures
        r == spec_json_null(*v),
{
    v.is_null()
}

/// The text under a string key of a JSON object, when the key is there
/// and holds a JSON string.
pub open spec fn spec_field_str(v: serde_json::Value, key: Seq<char>) -> Option<Seq<char>> {
    match spec_json_get(v, key) {
        Some(f) => spec_json_str(f),
        None => None,
    }
}

/// The departure instant a connection element yields: the text under
/// `from.departure`, read as a timestamp.
pub open spec fn spec_departure_seconds(v: serde_json::Value) -> Option<i64> {
    match spec_json_get(v, "from"@) {
        Some(f) => match spec_field_str(f, "departure"@) {
            Some(s) => epoch_seconds_of(s),
            None => None,
        },
        None => None,
    }
}

/// The arrival instant a connection element yields: the text under
/// `to.arrival`, read as a timestamp.
pub open spec fn spec_arrival_seconds(v: serde_json::Value) -> Option<i64> {
    match spec_json_get(v, "to"@) {
        Some(t) => match spec_field_str(t, "arrival"@) {
            Some(s) => epoch_seconds_of(s),
            None => None,
        },
        None => None,
    }
}

/// Whether both instants of a connection element can be read — what the
/// selection needs to rank it.
pub open spec fn spec_conn_timestamps_ok(v: serde_json::Value) -> bool {
    spec_departure_seconds(v) is Some && spec_arrival_seconds(v) is Some
}

/// The candidate array of a response body: the `connections` array of
/// the JSON document, when the body parses and has one.
pub open spec fn spec_doc_connections(body: Seq<char>) -> Option<Seq<serde_json::Value>> {
    match spec_json_doc(body) {
        Some(doc) => match spec_json_get(doc, "connections"@) {
            Some(c) => spec_json_array(c),
            None => None,
        },
        None => None,
    }
}

fn str_field<'a>(v: &'a serde_json::Value, key: &str) -> (r: Option<&'a str>)
    ensures
        (r is Some) == (spec_field_str(*v, key@) is Some),
        r matches Some(s) ==> Some(s@) == spec_field_str(*v, key@),
{
    match json_get(v, key) {
        Some(f) => json_as_str(f),
        None => None,
    }
}

fn string_field(v: &serde_json::Value, key: &str) -> (r: Option<String>)
    ensures
        (r is Some) == (spec_field_str(*v, key@) is Some),
        r matches Some(s) ==> Some(s@) == spec_field_str(*v, key@),
{
    match str_field(v, key) {
        Some(s) => Some(s.to_owned()),
        None => None,
    }
}

fn section_from_json(v: &serde_json::Value) -> (r: Section) {
    let departure;
    let departure_station;
    let platform;
    match json_get(v, "departure") {
        Some(dep) => {
            departure = string_field(dep, "departure");
            platform = string_field(dep, "platform");
            departure_station = match json_get(dep, "station") {
                Some(st) => string_field(st, "name"),
                None => None,
            };
        },
        None => {
            departure = None;
            departure_station = None;
            platform = None;
        },
    }
    let arrival;
    let arrival_station;
    match json_get(v, "arrival") {
        Some(arr) => {
            arrival = string_field(arr, "arrival");
            arrival_station = match json_get(arr, "station") {
                Some(st) => string_field(st, "name"),
                None => None,
            };
        },
        None => {
            arrival = None;
            arrival_station = None;
        },
    }
    let journey = match json_get(v, "journey") {
        Some(j) => if json_is_null(j) {
            None
        } else {
            let category = match string_field(j, "category") {
                Some(c) => c,
                None => String::new(),
            };
            let number = match string_field(j, "number") {
                Some(n) => n,
                None => String::new(),
            };
            Some(Journey { category, number })
        },
        None => None,
    };
    Section { departure, departure_station, platform, arrival, arrival_station, journey }
}

fn connection_from_json(v: &serde_json::Value) -> (r: Result<Connection, TransitError>)
    ensures
        r is Ok <==> spec_conn_timestamps_ok(*v),
        r matches Err(e) ==> e is BadTimestamp,
        r matches Ok(c) ==> Some(c.departure_ts) == spec_departure_seconds(*v) && Some(
            c.arrival_ts,
        ) == spec_arrival_seconds(*v),
{
    let departure_ts = match json_get(v, "from") {
        Some(f) => match str_field(f, "departure") {
            Some(s) => match parse_epoch_seconds(s) {
                Some(t) => t,
                None => {
                    return Err(TransitError::BadTimestamp);
                },
            },
            None => {
                return Err(TransitError::BadTimestamp);
            },
        },
        None => {
            return Err(TransitError::BadTimestamp);
        },
    };
    let arrival_ts = match json_get(v, "to") {
        Some(t) => match str_field(t, "arrival") {
            Some(s) => match parse_epoch_seconds(s) {
                Some(t) => t,
                None => {
                    return Err(TransitError::BadTimestamp);
                },
            },
            None => {
                return Err(TransitError::BadTimestamp);
            },
        },
        None => {
            return Err(TransitError::BadTimestamp);
        },
    };
    let duration = match string_field(v, "duration") {
        Some(d) => d,
        None => "?".to_owned(),
    };
    let transfers: u32 = match json_get(v, "transfers") {
        Some(t) => match json_as_i64(t) {
            Some(n) => if n < 0 || n > 0xffff_ffff {
                0
            } else {
                n as u32
            },
            None => 0,
        },
        None => 0,
    };
    let mut sections: Vec<Section> = Vec::new();
    match json_get(v, "sections") {
        Some(s) => match json_as_array(s) {
            Some(items) => {
                let mut i: usize = 0;
                while i < items.len()
                    decreases items@.len() - i,
                {
                    sections.push(section_from_json(&items[i]));
                    i += 1;
                }
            },
            None => {},
        },
        None => {},
    }
    Ok(Connection { departure_ts, arrival_ts, duration, transfers, sections })
}

/// Reads the candidate connections out of the transit service's response
/// body. Fails with `InvalidResponse` exactly when the body is not JSON
/// or holds no `connections` array, and with `BadTimestamp` exactly when
/// a candidate's departure or arrival cannot be read — the selection
/// could not rank such a candidate, so the whole chain gives up rather
/// than skip it. Otherwise every candidate comes back, in order, with
/// its instants as the timestamps name them. An empty `connections`
/// array yields an empty list; the selector then reports it.
pub fn connections_from_body(body: &str) -> (r: Result<Vec<Connection>, TransitError>)
    ensures
        (r matches Err(e) && e is InvalidResponse) <==> spec_doc_connections(body@) is None,
        (r matches Err(e) && e is BadTimestamp) <==> (spec_doc_connections(body@) matches Some(arr)
            && exists|k: int| 0 <= k < arr.len() && !spec_conn_timestamps_ok(#[trigger] arr[k])),
        r is Ok <==> (spec_doc_connections(body@) matches Some(arr) && forall|k: int|
            0 <= k < arr.len() ==> spec_conn_timestamps_ok(#[trigger] arr[k])),
        r matches Ok(cs) ==> (spec_doc_connections(body@) matches Some(arr) && cs@.len()
            == arr.len() && forall|k: int|
            0 <= k < arr.len() ==> Some(#[trigger] cs@[k].departure_ts) == spec_departure_seconds(
                arr[k],
            ) && Some(cs@[k].arrival_ts) == spec_arrival_seconds(arr[k])),
{
    let doc = match json_parse(body) {
        Some(d) => d,
        None => {
            return Err(TransitError::InvalidResponse);
        },
    };
    let conns_val = match json_get(&doc, "connections") {
        Some(c) => c,
        None => {
            return Err(TransitError::InvalidResponse);
        },
    };
    let items = match json_as_array(conns_val) {
        Some(a) => a,
        None => {
            return Err(TransitError::InvalidResponse);
        },
    };
    let ghost arr = items@;
    proof {
        assert(spec_doc_connections(body@) == Some(arr));
    }
    let mut out: Vec<Connection> = Vec::new();
    let mut i: usize = 0;
    while i < items.len()
        invariant
            i <= items@.len(),
            arr == items@,
            spec_doc_connections(body@) == Some(arr),
            out@.len() == i,
            forall|k: int| 0 <= k < i ==> spec_conn_timestamps_ok(#[trigger] arr[k]),
            forall|k: int|
                0 <= k < i ==> Some(#[trigger] out@[k].departure_ts) == spec_departure_seconds(
                    arr[k],
                ) && Some(out@[k].arrival_ts) == spec_arrival_seconds(arr[k]),
        decreases items@.len() - i,
    {
        match connection_from_json(&items[i]) {
            Ok(c) => out.push(c),
            Err(e) => {
                proof {
                    assert(!spec_conn_timestamps_ok(arr[i as int]));
                }
                return Err(e);
            },
        }
        i += 1;
    }
    Ok(out)
}

} // verus!
