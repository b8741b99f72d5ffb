//! Rendering of a selected connection as a multi-line itinerary.
//!
//! The first line reports the connection's own duration, in minutes, and
//! its transfer count. Then comes one line per leg, in order; a leg
//! without a usable departure or arrival timestamp is skipped. A walking
//! leg names the arrival station; a riding leg names its line, both
//! stations and the departure platform.

use vstd::prelude::*;

use crate::duration::{parse_duration_to_minutes, spec_parse_duration};
use crate::model::{Connection, Section};
use crate::text::{trim, trim_str, u64_to_dec, dec_str};

verus! {

/// The time of day `HH:MM` of an ISO timestamp text: its characters at
/// positions eleven to fifteen.
pub open spec fn spec_time_of_day(ts: Seq<char>) -> Seq<char> {
    ts.subrange(11, 16)
}

/// A station name, or `"?"` when the service sent none.
pub open spec fn spec_station(name: Option<String>) -> Seq<char> {
    match name {
        Some(n) => n@,
        None => "?"@,
    }
}

/// A platform, or `"-"` when the service sent none.
pub open spec fn spec_platform(p: Option<String>) -> Seq<char> {
    match p {
        Some(p) => p@,
        None => "-"@,
    }
}

/// The line rendered for one leg: `None` when the leg lacks a departure
/// or arrival timestamp long enough to carry a time of day and is
/// skipped; a walking line when it has no journey descriptor; otherwise
/// a riding line with the line label (category and number, joined by a
/// space and trimmed of surrounding whitespace), both stations, and the
/// platform.
pub open spec fn spec_section_line(s: Section) -> Option<Seq<char>> {
    match (s.departure, s.arrival) {
        (Some(dep), Some(arr)) => {
            if dep@.len() < 16 || arr@.len() < 16 {
                None
            } else {
                let times = spec_time_of_day(dep@) + "-"@ + spec_time_of_day(arr@);
                match s.journey {
                    None => Some(times + " | walk → "@ + spec_station(s.arrival_station)),
                    Some(j) => Some(
                        times + " | Line: "@ + trim(j.category@ + " "@ + j.number@) + " | via ["@
                            + spec_station(s.departure_station) + "] → ["@ + spec_station(
                            s.arrival_station,
                        ) + "] | Platform: "@ + spec_platform(s.platform),
                    ),
                }
            }
        },
        _ => None,
    }
}

/// The header line of an itinerary: the connection's reported duration
/// in minutes (zero when its text does not parse) and its transfer
/// count.
pub open spec fn spec_header_line(c: Connection) -> Seq<char> {
    let m = match spec_parse_duration(c.duration@) {
        Some(m) => m as nat,
        None => 0nat,
    };
    dec_str(m) + " min | Transfers: "@ + dec_str(c.transfers as nat)
}

/// The rendered lines of a sequence of legs, in order, skipped legs left
/// out.
pub open spec fn spec_section_lines(ss: Seq<Section>) -> Seq<Seq<char>>
    decreases ss.len(),
{
    if ss.len() == 0 {
        seq![]
    } else {
        spec_section_lines(ss.drop_last()) + match spec_section_line(ss.last()) {
            Some(l) => seq![l],
            None => seq![],
        }
    }
}

/// All lines of a connection's itinerary: the header, then one line per
/// rendered leg.
pub open spec fn spec_itinerary_lines(c: Connection) -> Seq<Seq<char>> {
    seq![spec_header_line(c)] + spec_section_lines(c.sections@)
}

/// Lines joined by single newlines.
pub open spec fn spec_join_lines(ls: Seq<Seq<char>>) -> Seq<char>
    decreases ls.len(),
{
    if ls.len() == 0 {
        seq![]
    } else if ls.len() == 1 {
        ls[0]
    } else {
        spec_join_lines(ls.drop_last()) + "\n"@ + ls.last()
    }
}

/// The full rendering of a connection: its itinerary lines joined by
/// newlines.
pub open spec fn spec_rail_summary(c: Connection) -> Seq<char> {
    spec_join_lines(spec_itinerary_lines(c))
}

fn time_of_day(ts: &str) -> (r: &str)
    requires
        ts@.len() >= 16,
    ensures
        r@ == spec_time_of_day(ts@),
{
    ts.substring_char(11, 16)
}

fn station_str(name: &Option<String>) -> (r: &str)
    ensures
        r@ == spec_station(*name),
{
    match name {
        Some(n) => n.as_str(),
        None => "?",
    }
}

/// Renders one leg, or `None` for a leg that is skipped.
pub fn render_section(s: &Section) -> (r: Option<String>)
    ensures
        r matches Some(l) ==> (spec_section_line(*s) matches Some(sl) && l@ == sl),
        r is None ==> spec_section_line(*s) is None,
{
    let dep = match &s.departure {
        Some(d) => d,
        None => {
            return None;
        },
    };
    let arr = match &s.arrival {
        Some(a) => a,
        None => {
            return None;
        },
    };
    if dep.as_str().unicode_len() < 16 || arr.as_str().unicode_len() < 16 {
        return None;
    }
    let mut line = time_of_day(dep.as_str()).to_owned();
    line.append("-");
    line.append(time_of_day(arr.as_str()));
    match &s.journey {
        None => {
            line.append(" | walk → ");
            line.append(station_str(&s.arrival_station));
        },
        Some(j) => {
            let mut label_src = j.category.as_str().to_owned();
            label_src.append(" ");
            label_src.append(j.number.as_str());
            let label = trim_str(label_src.as_str());
            line.append(" | Line: ");
            line.append(label.as_str());
            line.append(" | via [");
            line.append(station_str(&s.departure_station));
            line.append("] → [");
            line.append(station_str(&s.arrival_station));
            line.append("] | Platform: ");
            match &s.platform {
                Some(p) => line.append(p.as_str()),
                None => line.append("-"),
            }
        },
    }
    proof {
        assert(spec_section_line(*s) matches Some(sl) && line@ =~= sl);
    }
    Some(line)
}

/// Renders the header line of a connection's itinerary.
pub fn render_header(c: &Connection) -> (r: String)
    ensures
        r@ == spec_header_line(*c),
{
    let minutes: u32 = match parse_duration_to_minutes(c.duration.as_str()) {
        Some(m) => m,
        None => 0,
    };
    let mut line = u64_to_dec(minutes as u64);
    line.append(" min | Transfers: ");
    let transfers = u64_to_dec(c.transfers as u64);
    line.append(transfers.as_str());
    proof {
        assert(line@ =~= spec_header_line(*c));
    }
    line
}

/// Renders a connection's itinerary: the header line, then one line per
/// leg that has usable timestamps, in order.
pub fn render_connection(c: &Connection) -> (r: Vec<String>)
    ensures
        r@.map_values(|l: String| l@) == spec_itinerary_lines(*c),
{
    let mut out: Vec<String> = Vec::new();
    out.push(render_header(c));
    proof {
        assert(out@.map_values(|l: String| l@) =~~= seq![spec_header_line(*c)]
            + spec_section_lines(c.sections@.take(0)));
    }
    let n = c.sections.len();
    let mut i: usize = 0;
    while i < n
        invariant
            i <= n,
            n == c.sections@.len(),
            out@.map_values(|l: String| l@) == seq![spec_header_line(*c)] + spec_section_lines(
                c.sections@.take(i as int),
            ),
        decreases n - i,
    {
        proof {
            assert(c.sections@.take(i + 1).drop_last() =~= c.sections@.take(i as int));
            assert(c.sections@.take(i + 1).last() == c.sections@[i as int]);
        }
        let ghost prev = out@.map_values(|l: String| l@);
        match render_section(&c.sections[i]) {
            Some(l) => {
                out.push(l);
                proof {
                    assert(out@.map_values(|l: String| l@) =~~= prev.push(
                        spec_section_line(c.sections@[i as int]).unwrap(),
                    ));
                    assert(out@.map_values(|l: String| l@) =~~= seq![spec_header_line(*c)]
                        + spec_section_lines(c.sections@.take(i + 1)));
                }
            },
            None => {
                proof {
                    assert(spec_section_lines(c.sections@.take(i + 1)) =~~= spec_section_lines(
                        c.sections@.take(i as int),
                    ));
                }
            },
        }
        i += 1;
    }
    proof {
        assert(c.sections@.take(n as int) =~= c.sections@);
    }
    out
}

/// Joins lines with single newlines.
pub fn join_lines(lines: &Vec<String>) -> (r: String)
    ensures
        r@ == spec_join_lines(lines@.map_values(|l: String| l@)),
{
    let ghost ls = lines@.map_values(|l: String| l@);
    let mut r = String::new();
    let n = lines.len();
    let mut i: usize = 0;
    while i < n
        invariant
            i <= n,
            n == lines@.len(),
            ls == lines@.map_values(|l: String| l@),
            r@ == spec_join_lines(ls.take(i as int)),
        decreases n - i,
    {
        proof {
            assert(ls.take(i + 1).drop_last() =~= ls.take(i as int));
            assert(ls.take(i + 1).last() == ls[i as int]);
        }
        if i > 0 {
            r.append("\n");
        }
        r.append(lines[i].as_str());
        proof {
            if i == 0 {
                assert(r@ =~= spec_join_lines(ls.take(1)));
            } else {
                assert(r@ =~= spec_join_lines(ls.take(i + 1)));
            }
        }
        i += 1;
    }
    proof {
        assert(ls.take(n as int) =~= ls);
    }
    r
}

/// Renders a connection as one newline-joined itinerary text.
pub fn render_rail_summary(c: &Connection) -> (r: String)
    ensures
        r@ == spec_rail_summary(*c),
{
    let lines = render_connection(c);
    join_lines(&lines)
}

} // verus!
