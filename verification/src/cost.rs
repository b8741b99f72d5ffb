//! The selector's cost function and the selection of the best candidate
//! connection.
//!
//! The cost of a candidate is its waiting time (minutes from the capture
//! instant to its departure, never negative: an already-departed
//! candidate waits zero) plus its riding time (minutes from departure to
//! arrival). The candidate with the least cost wins; a tie goes to the
//! earliest candidate in the list's order.

use vstd::arithmetic::div_mod::{lemma_div_is_ordered, lemma_div_pos_is_pos};
use vstd::prelude::*;

use crate::errors::TransitError;
use crate::model::Connection;

verus! {

/// Whole minutes from instant `a` to instant `b`, both in seconds since
/// the Unix epoch; the fraction of a minute is dropped toward zero, so
/// the result is negative when `b` lies before `a`.
pub open spec fn spec_minutes_between(a: int, b: int) -> int {
    if b >= a {
        (b - a) / 60
    } else {
        -((a - b) / 60)
    }
}

/// The cost of a candidate that departs at `dep` and arrives at `arr`,
/// seen from the capture instant `now` (all in seconds since the Unix
/// epoch): waiting minutes, clamped to zero, plus riding minutes.
pub open spec fn spec_cost(now: int, dep: int, arr: int) -> int {
    (if spec_minutes_between(now, dep) > 0 {
        spec_minutes_between(now, dep)
    } else {
        0
    }) + spec_minutes_between(dep, arr)
}

/// The cost of a connection, seen from the capture instant `now`.
pub open spec fn spec_conn_cost(now: int, c: Connection) -> int {
    spec_cost(now, c.departure_ts as int, c.arrival_ts as int)
}

/// Whether index `i` is the one the selector picks from `conns` at the
/// capture instant `now`: its cost is minimal, and every earlier index
/// costs strictly more.
pub open spec fn is_selected(now: int, conns: Seq<Connection>, i: int) -> bool {
    &&& 0 <= i < conns.len()
    &&& forall|j: int|
        0 <= j < conns.len() ==> spec_conn_cost(now, conns[i]) <= spec_conn_cost(now, conns[j])
    &&& forall|j: int| 0 <= j < i ==> spec_conn_cost(now, conns[j]) > spec_conn_cost(now, conns[i])
}

/// Whole minutes from instant `a` to instant `b`. The result always fits
/// well within the type: a difference of two 64-bit second counts spans
/// less than `2^62` minutes.
pub fn minutes_between(a: i64, b: i64) -> (r: i64)
    ensures
        r == spec_minutes_between(a as int, b as int),
        -0x4000_0000_0000_0000 < r < 0x4000_0000_0000_0000,
{
    if b >= a {
        let d: u128 = (b as i128 - a as i128) as u128;
        let q: u128 = d / 60;
        proof {
            lemma_div_is_ordered(d as int, 0xffff_ffff_ffff_ffff, 60);
            lemma_div_pos_is_pos(d as int, 60);
        }
        q as i64
    } else {
        let d: u128 = (a as i128 - b as i128) as u128;
        let q: u128 = d / 60;
        proof {
            lemma_div_is_ordered(d as int, 0xffff_ffff_ffff_ffff, 60);
            lemma_div_pos_is_pos(d as int, 60);
        }
        -(q as i64)
    }
}

/// The cost of connection `c` at the capture instant `now`.
pub fn connection_cost(now: i64, c: &Connection) -> (r: i64)
    ensures
        r == spec_conn_cost(now as int, *c),
{
    let wait = minutes_between(now, c.departure_ts);
    let ride = minutes_between(c.departure_ts, c.arrival_ts);
    let clamped_wait: i64 = if wait > 0 {
        wait
    } else {
        0
    };
    clamped_wait + ride
}

/// Picks the best connection: the first one of least cost. Fails only on
/// an empty list.
pub fn select_best(now: i64, conns: &Vec<Connection>) -> (r: Result<usize, TransitError>)
    ensures
        conns@.len() == 0 ==> r == Err::<usize, TransitError>(TransitError::NoConnections),
        conns@.len() > 0 ==> (r matches Ok(i) && is_selected(now as int, conns@, i as int)),
{
    if conns.len() == 0 {
        return Err(TransitError::NoConnections);
    }
    let mut best: usize = 0;
    let mut best_cost = connection_cost(now, &conns[0]);
    let mut j: usize = 1;
    while j < conns.len()
        invariant
            1 <= j <= conns@.len(),
            best < j,
            best_cost == spec_conn_cost(now as int, conns@[best as int]),
            forall|k: int| 0 <= k < j ==> best_cost <= spec_conn_cost(now as int, conns@[k]),
            forall|k: int| 0 <= k < best ==> spec_conn_cost(now as int, conns@[k]) > best_cost,
        decreases conns@.len() - j,
    {
        let cj = connection_cost(now, &conns[j]);
        if cj < best_cost {
            best = j;
            best_cost = cj;
        }
        j += 1;
    }
    Ok(best)
}

/// Law: the selector never synthesizes a connection — what it picks is a
/// member of the input list.
pub proof fn lemma_selected_is_member(now: int, conns: Seq<Connection>, i: int)
    requires
        is_selected(now, conns, i),
    ensures
        0 <= i < conns.len(),
        conns.contains(conns[i]),
{
    assert(conns[i] == conns[i]);
}

/// Law: at most one index is selected — the selection is deterministic.
pub proof fn lemma_selected_unique(now: int, conns: Seq<Connection>, i: int, j: int)
    requires
        is_selected(now, conns, i),
        is_selected(now, conns, j),
    ensures
        i == j,
{
    if i < j {
        assert(spec_conn_cost(now, conns[i]) > spec_conn_cost(now, conns[j]));
        assert(spec_conn_cost(now, conns[j]) >= spec_conn_cost(now, conns[i]));
    } else if j < i {
        assert(spec_conn_cost(now, conns[j]) > spec_conn_cost(now, conns[i]));
        assert(spec_conn_cost(now, conns[i]) >= spec_conn_cost(now, conns[j]));
    }
}

/// Law: of two connections with the same cost, the selector takes the
/// one that comes first in the input order.
pub proof fn lemma_tie_goes_to_first(now: int, conns: Seq<Connection>, i: int, j: int)
    requires
        is_selected(now, conns, i),
        0 <= j < conns.len(),
        spec_conn_cost(now, conns[j]) == spec_conn_cost(now, conns[i]),
    ensures
        i <= j,
{
}

proof fn lemma_minutes_between_monotone(a1: int, b1: int, a2: int, b2: int)
    requires
        b1 - a1 <= b2 - a2,
    ensures
        spec_minutes_between(a1, b1) <= spec_minutes_between(a2, b2),
{
    let d1 = b1 - a1;
    let d2 = b2 - a2;
    if 0 <= d1 {
        lemma_div_is_ordered(d1, d2, 60);
    } else if d2 < 0 {
        lemma_div_is_ordered(-d2, -d1, 60);
    } else {
        lemma_div_pos_is_pos(-d1, 60);
        lemma_div_pos_is_pos(d2, 60);
    }
}

/// Law: the cost never falls when the time until departure grows while
/// the trip's own span stays the same.
pub proof fn lemma_cost_monotone_in_wait(now: int, dep1: int, arr1: int, dep2: int, arr2: int)
    requires
        dep1 - now <= dep2 - now,
        arr1 - dep1 == arr2 - dep2,
    ensures
        spec_cost(now, dep1, arr1) <= spec_cost(now, dep2, arr2),
{
    lemma_minutes_between_monotone(now, dep1, now, dep2);
    lemma_minutes_between_monotone(dep1, arr1, dep2, arr2);
    lemma_minutes_between_monotone(dep2, arr2, dep1, arr1);
}

/// Law: the cost never falls when the trip's own span grows while the
/// departure stays the same.
pub proof fn lemma_cost_monotone_in_ride(now: int, dep: int, arr1: int, arr2: int)
    requires
        arr1 <= arr2,
    ensures
        spec_cost(now, dep, arr1) <= spec_cost(now, dep, arr2),
{
    lemma_minutes_between_monotone(dep, arr1, dep, arr2);
}

} // verus!
