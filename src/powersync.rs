//! Decisions around the storage extension's change queue.
use vstd::prelude::*;

verus! {

/// The batch size used when a caller names none.
pub const DEFAULT_CRUD_LIMIT: i64 = 100;

/// The number of pending changes to fetch in one batch.
pub fn crud_batch_limit(limit: Option<i64>) -> (r: i64)
    ensures
        r == match limit {
            Some(n) => n,
            None => DEFAULT_CRUD_LIMIT,
        },
{
    match limit {
        Some(n) => n,
        None => DEFAULT_CRUD_LIMIT,
    }
}

/// Whether a count of queued changes means that some are pending.
pub fn has_pending_crud(count: i64) -> (r: bool)
    ensures
        r == (count > 0),
{
    count > 0
}

} // verus!
