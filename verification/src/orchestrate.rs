//! The download orchestrator's decision: which items a sweep starts and
//! under which format. The shell performs the fan-out — one task per id,
//! each holding one permit from the pool for its whole lifecycle — and
//! returns the count immediately.

use vstd::prelude::*;

use crate::errors::AppError;
use crate::errors::ErrorKind;
use crate::formats::normalize_format;
use crate::formats::normalized_format;
use crate::queue::spec_eligible_ids;
use crate::queue::Queue;

verus! {

/// One sweep's plan: the canonical format and the ids to dispatch, in
/// queue order. A sweep selects every item that is not currently
/// working — waiting, complete and failed alike — so re-running it
/// retries failures and re-downloads completed items, but never
/// double-starts a working one. An invalid format is rejected before
/// anything is selected.
pub fn start_plan(queue: &Queue, format: &str) -> (r: Result<(&'static str, Vec<String>), AppError>)
    ensures
        match r {
            Ok(plan) => normalized_format(format@) == Some(plan.0@) && plan.1@.map_values(
                |s: String| s@,
            ) == spec_eligible_ids(queue@),
            Err(e) => normalized_format(format@) is None && e.kind == ErrorKind::BadRequest
                && e.message@ == "unsupported format"@,
        },
{
    let fmt = normalize_format(format)?;
    let ids = queue.eligible_ids();
    Ok((fmt, ids))
}

} // verus!
