//! The rail chain's computation: pick the best candidate connection and
//! render its itinerary.

use vstd::prelude::*;

use crate::cost::{is_selected, select_best};
use crate::errors::TransitError;
use crate::model::Connection;
use crate::render::{render_rail_summary, spec_rail_summary};
use crate::timestamp::current_epoch_seconds;

verus! {

/// Picks the best connection as seen from the capture instant `now` and
/// renders its itinerary. Fails only on an empty list of candidates.
pub fn rail_report(now: i64, conns: &Vec<Connection>) -> (r: Result<String, TransitError>)
    ensures
        conns@.len() == 0 <==> r == Err::<String, TransitError>(TransitError::NoConnections),
        conns@.len() > 0 ==> r is Ok,
        r matches Ok(s) ==> exists|i: int|
            #[trigger] is_selected(now as int, conns@, i) && s@ == spec_rail_summary(conns@[i]),
{
    let best = match select_best(now, conns) {
        Ok(i) => i,
        Err(e) => {
            return Err(e);
        },
    };
    let summary = render_rail_summary(&conns[best]);
    proof {
        assert(is_selected(now as int, conns@, best as int) && summary@ == spec_rail_summary(
            conns@[best as int],
        ));
    }
    Ok(summary)
}

/// Picks and renders the best connection as seen from the current
/// wall-clock instant. Fails only on an empty list of candidates; what
/// is rendered is the selection at some capture instant — the one the
/// clock gave.
pub fn rail_report_now(conns: &Vec<Connection>) -> (r: Result<String, TransitError>)
    ensures
        conns@.len() == 0 <==> r == Err::<String, TransitError>(TransitError::NoConnections),
        conns@.len() > 0 ==> r is Ok,
        r matches Ok(s) ==> exists|now: int, i: int|
            #[trigger] is_selected(now, conns@, i) && s@ == spec_rail_summary(conns@[i]),
{
    let now = current_epoch_seconds();
    rail_report(now, conns)
}

} // verus!
