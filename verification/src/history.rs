//! Commit history of a branch: paging a commit listing, the branches of a
//! repository by reference name, and blame hunks.

use vstd::prelude::*;
use crate::tags::strip_prefix;
use crate::text::{chars_of, string_of_range};

verus! {

/// The largest page of a commit listing.
pub const MAX_LIMIT: usize = 100;

/// The page size of a commit listing when none is asked for.
pub fn default_limit() -> (r: usize)
    ensures
        r == 20,
{
    20
}

/// The order of a commit listing: newest first unless asked otherwise.
#[derive(Clone, Copy, PartialEq, Eq, Structural, Debug)]
pub enum SortOrder {
    Desc,
    Asc,
}

impl Default for SortOrder {
    fn default() -> (r: Self)
        ensures
            r == SortOrder::Desc,
    {
        SortOrder::Desc
    }
}

/// Query parameters of a commit listing.
pub struct CommitsQuery {
    pub limit: usize,
    pub offset: usize,
    pub sort: SortOrder,
    pub path: Option<String>,
}

/// How a commit listing is read: at most [`MAX_LIMIT`] commits, from the
/// offset, oldest first when ascending order is asked for.
pub struct CommitPage {
    pub limit: usize,
    pub offset: usize,
    pub reverse: bool,
}

impl CommitsQuery {
    /// The page a query asks for; the limit is capped at [`MAX_LIMIT`].
    pub fn page(&self) -> (r: CommitPage)
        ensures
            r.limit == (if self.limit < MAX_LIMIT {
                self.limit
            } else {
                MAX_LIMIT
            }),
            r.offset == self.offset,
            r.reverse == (self.sort == SortOrder::Asc),
    {
        let limit = if self.limit < MAX_LIMIT {
            self.limit
        } else {
            MAX_LIMIT
        };
        let reverse = match self.sort {
            SortOrder::Asc => true,
            SortOrder::Desc => false,
        };
        CommitPage { limit, offset: self.offset, reverse }
    }
}

/// The name of a branch from its reference name: what follows
/// `refs/heads/`, or nothing for a reference that is not a branch.
pub fn branch_name(reference: &str) -> (r: Option<String>)
    ensures
        match strip_prefix(reference@, "refs/heads/"@) {
            Some(n) => r matches Some(s) && s@ == n,
            None => r is None,
        },
{
    let cs = chars_of(reference);
    let prefix = chars_of("refs/heads/");
    if prefix.len() > cs.len() {
        return None;
    }
    let mut i: usize = 0;
    while i < prefix.len()
        invariant
            i <= prefix@.len() <= cs@.len(),
            prefix@ == "refs/heads/"@,
            cs@ == reference@,
            forall|k: int| 0 <= k < i ==> cs@[k] == prefix@[k],
        decreases prefix@.len() - i,
    {
        if cs[i] != prefix[i] {
            assert(cs@.take(prefix@.len() as int)[i as int] != prefix@[i as int]);
            return None;
        }
        i += 1;
    }
    assert(cs@.take(prefix@.len() as int) =~= prefix@);
    assert(cs@.subrange(prefix@.len() as int, cs@.len() as int) =~= cs@.skip(prefix@.len() as int));
    Some(string_of_range(cs.as_slice(), prefix.len(), cs.len()))
}

/// Why a blame hunk cannot be reported.
#[derive(Clone, Copy, PartialEq, Eq, Structural, Debug)]
pub enum BlameError {
    /// "start line in hunk is larger than u32"
    StartLineTooLarge,
    /// "line amount in hunk is larger than u32"
    LineCountTooLarge,
}

/// The start line and line count of a blame hunk as 32-bit numbers, or
/// which of them does not fit.
pub fn blame_lines(start_line: usize, lines: usize) -> (r: Result<(u32, u32), BlameError>)
    ensures
        start_line > u32::MAX ==> r == Err::<(u32, u32), BlameError>(BlameError::StartLineTooLarge),
        start_line <= u32::MAX && lines > u32::MAX ==> r == Err::<(u32, u32), BlameError>(BlameError::LineCountTooLarge),
        start_line <= u32::MAX && lines <= u32::MAX ==> r == Ok::<(u32, u32), BlameError>((start_line as u32, lines as u32)),
{
    if start_line > 0xffff_ffff {
        Err(BlameError::StartLineTooLarge)
    } else if lines > 0xffff_ffff {
        Err(BlameError::LineCountTooLarge)
    } else {
        Ok((start_line as u32, lines as u32))
    }
}

} // verus!
