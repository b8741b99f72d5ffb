//! The driving chain's computation: report the estimated driving time,
//! or its absence.

use vstd::prelude::*;

use crate::errors::RouteError;
use crate::text::{dec_str, u64_to_dec};

verus! {

/// The driving report for an estimate of `m` minutes.
pub open spec fn spec_driving_report(m: nat) -> Seq<char> {
    dec_str(m) + " min"@
}

/// Renders the estimated driving time. The routing service's response
/// yields the estimate in whole minutes, or nothing when it lacks a
/// numeric route duration; the report fails exactly in that case.
pub fn driving_report(minutes: Option<u64>) -> (r: Result<String, RouteError>)
    ensures
        minutes matches Some(m) ==> (r matches Ok(s) && s@ == spec_driving_report(m as nat)),
        minutes is None ==> r == Err::<String, RouteError>(RouteError),
{
    match minutes {
        Some(m) => {
            let mut s = u64_to_dec(m);
            s.append(" min");
            Ok(s)
        },
        None => Err(RouteError),
    }
}

} // verus!
