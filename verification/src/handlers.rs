//! What the two endpoints compute once the request is read: the summary
//! for a request path, and the queued form of a submitted payment.
use vstd::prelude::*;

use crate::models::ApiSummaryResponse;
use crate::query::{opt_view, parse_query_params_from_path, query_filters};
use crate::shared_mem::{bound_of, range_totals, range_outcome_of, DateField, SharedMemoryManager, SummaryRangeError, Totals};

verus! {

/// What the summary endpoint gives for a request path: the range outcome
/// for the `from` and `to` parameters of its query.
pub open spec fn summary_outcome(shared_memory: &SharedMemoryManager, path: Seq<char>) -> Result<
    Totals,
    DateField,
> {
    let filters = query_filters(path);
    shared_memory.range_outcome(filters.0, filters.1)
}

/// The summary answer for a request path: the totals over the range that
/// its `from` and `to` parameters give (all shared totals without them),
/// or the error for a bound that is not a date and time.
pub fn payments_summary(shared_memory: &SharedMemoryManager, path: &str) -> (r: Result<
    ApiSummaryResponse,
    SummaryRangeError,
>)
    ensures
        match r {
            Ok(s) => summary_outcome(shared_memory, path@) matches Ok(t) && s.shows(t),
            Err(e) => range_outcome_of(Err(e)) == summary_outcome(shared_memory, path@),
        },
        match r {
            Ok(s) => shared_memory.range_outcome(query_filters(path@).0, query_filters(path@).1)
                matches Ok(t) && s.shows(t),
            Err(e) => range_outcome_of(Err(e)) == shared_memory.range_outcome(
                query_filters(path@).0,
                query_filters(path@).1,
            ),
        },
        bound_of(query_filters(path@).0) is Some && bound_of(query_filters(path@).1) is Some
            ==> (r matches Ok(s) && s.shows(
            range_totals(
                shared_memory.records(),
                bound_of(query_filters(path@).0),
                bound_of(query_filters(path@).1),
            ),
        )),
        query_filters(path@).0 is None && bound_of(query_filters(path@).1) is Some ==> (r matches Ok(
            s,
        ) && s.shows(range_totals(shared_memory.records(), None, bound_of(query_filters(path@).1)))),
        query_filters(path@).1 is None && bound_of(query_filters(path@).0) is Some ==> (r matches Ok(
            s,
        ) && s.shows(range_totals(shared_memory.records(), bound_of(query_filters(path@).0), None))),
{
    let (from, to) = parse_query_params_from_path(path);
    let from_ref: Option<&str> = match &from {
        Some(s) => Some(s.as_str()),
        None => None,
    };
    let to_ref: Option<&str> = match &to {
        Some(s) => Some(s.as_str()),
        None => None,
    };
    assert(crate::shared_mem::str_opt_view(from_ref) == opt_view(from));
    assert(crate::shared_mem::str_opt_view(to_ref) == opt_view(to));
    match shared_memory.get_summary_range(from_ref, to_ref) {
        Ok(totals) => Ok(ApiSummaryResponse::from_totals(totals)),
        Err(e) => Err(e),
    }
}

} // verus!
