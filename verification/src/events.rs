//! Paging parameters of the event listings (personal audit log, user feed,
//! dashboard, organisation audit log).

use vstd::prelude::*;

verus! {

/// Query parameters of an event listing.
pub struct EventListParams {
    pub offset: i64,
    pub limit: i64,
    pub type_filter: Option<String>,
}

/// The page size used when a listing names none.
pub fn default_limit() -> (r: i64)
    ensures
        r == 20,
{
    20
}

/// The offset actually used: negative offsets count as zero.
pub open spec fn clamped_offset(offset: int) -> int {
    if offset < 0 {
        0
    } else {
        offset
    }
}

/// The page size actually used: at least one and at most a hundred.
pub open spec fn clamped_limit(limit: int) -> int {
    if limit < 1 {
        1
    } else if limit > 100 {
        100
    } else {
        limit
    }
}

/// Whether the parameters are within the bounds that [`EventListParams::sanitize`]
/// establishes.
pub open spec fn within_bounds(offset: int, limit: int) -> bool {
    0 <= offset && 1 <= limit <= 100
}

impl EventListParams {
    /// Clamps the offset to be non-negative and the limit to `1..=100`,
    /// keeping the type filter.
    pub fn sanitize(self) -> (r: Self)
        ensures
            r.offset == clamped_offset(self.offset as int),
            r.limit == clamped_limit(self.limit as int),
            r.type_filter == self.type_filter,
    {
        let offset = if self.offset < 0 {
            0
        } else {
            self.offset
        };
        let limit = if self.limit < 1 {
            1
        } else if self.limit > 100 {
            100
        } else {
            self.limit
        };
        EventListParams { offset, limit, type_filter: self.type_filter }
    }
}

/// Sanitising gives parameters within bounds, leaves parameters within
/// bounds unchanged, and so sanitising twice is sanitising once.
pub proof fn lemma_sanitize_bounds_and_idempotent(offset: int, limit: int)
    ensures
        within_bounds(clamped_offset(offset), clamped_limit(limit)),
        within_bounds(offset, limit) ==> clamped_offset(offset) == offset && clamped_limit(limit) == limit,
        clamped_offset(clamped_offset(offset)) == clamped_offset(offset),
        clamped_limit(clamped_limit(limit)) == clamped_limit(limit),
{
}

} // verus!
