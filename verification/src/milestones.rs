//! Milestones: who may create, change and delete them, and how a change
//! merges with the milestone as it is.

use vstd::prelude::*;
use crate::text::{trim, trimmed};

verus! {

/// Why a milestone request is refused.
#[derive(Clone, Copy, PartialEq, Eq, Structural, Debug)]
pub enum MilestoneError {
    /// The repository is archived and read-only
    Archived,
    /// The user does not manage issues
    InsufficientPermissions,
    /// There is no such milestone
    NotFound,
    /// The title is empty once trimmed
    EmptyTitle,
}

/// The check in front of milestone changes: not in an archived repository,
/// and only by those who manage issues.
pub open spec fn milestone_refusal(archived: bool, can_manage: bool) -> Option<MilestoneError> {
    if archived {
        Some(MilestoneError::Archived)
    } else if !can_manage {
        Some(MilestoneError::InsufficientPermissions)
    } else {
        None
    }
}

/// Checks a request to create a milestone and gives its title, trimmed.
pub fn check_new_milestone(archived: bool, can_manage: bool, title: &str) -> (r: Result<String, MilestoneError>)
    ensures
        match milestone_refusal(archived, can_manage) {
            Some(e) => r matches Err(x) && x == e,
            None => if trim(title@).len() == 0 {
                r matches Err(x) && x == MilestoneError::EmptyTitle
            } else {
                r matches Ok(t) && t@ == trim(title@)
            },
        },
{
    if archived {
        return Err(MilestoneError::Archived);
    }
    if !can_manage {
        return Err(MilestoneError::InsufficientPermissions);
    }
    let t = trimmed(title);
    if t.as_str().is_empty() {
        Err(MilestoneError::EmptyTitle)
    } else {
        Ok(t)
    }
}

/// A milestone's fields; the due date as a Unix time in seconds.
pub struct MilestoneFields {
    pub title: String,
    pub description: Option<String>,
    pub due_date: Option<i64>,
    pub closed: bool,
}

/// A request to change a milestone; absent fields are kept.
pub struct UpdateMilestoneRequest {
    pub title: Option<String>,
    pub description: Option<String>,
    /// Absent to keep the due date, `Some(None)` (null) to clear it, or
    /// the new due date
    pub due_date: Option<Option<i64>>,
    pub closed: Option<bool>,
}

/// The title after a change: the new one trimmed, else the current one.
pub open spec fn merged_title(existing: Seq<char>, asked: Option<String>) -> Seq<char> {
    match asked {
        Some(t) => trim(t@),
        None => existing,
    }
}

/// The description after a change: the new one trimmed, else the current
/// one, else the empty text.
pub open spec fn merged_description(existing: Option<String>, asked: Option<String>) -> Seq<char> {
    match asked {
        Some(d) => trim(d@),
        None => match existing {
            Some(d) => d@,
            None => Seq::empty(),
        },
    }
}

/// Law: what a change does not give is kept. Without a new title the
/// title stays; without a new description the existing description stays
/// (the empty text when there was none); a new title or description is
/// taken trimmed.
pub proof fn lemma_update_keeps_what_is_not_given(m: MilestoneFields, title: Option<String>, description: Option<String>)
    ensures
        title is None ==> merged_title(m.title@, title) == m.title@,
        description is None ==> merged_description(m.description, description) == match m.description {
            Some(d) => d@,
            None => Seq::<char>::empty(),
        },
        description is None && m.description is Some ==> merged_description(m.description, description)
            == m.description.unwrap()@,
        title matches Some(t) ==> merged_title(m.title@, title) == trim(t@),
        description matches Some(d) ==> merged_description(m.description, description) == trim(d@),
{
}

/// Law: nothing about milestones changes in an archived repository, and
/// only those who manage issues change them; with both conditions met no
/// refusal comes from this check.
pub proof fn lemma_milestone_refusals(archived: bool, can_manage: bool)
    ensures
        archived ==> milestone_refusal(archived, can_manage) == Some(MilestoneError::Archived),
        !archived && !can_manage ==> milestone_refusal(archived, can_manage) == Some(
            MilestoneError::InsufficientPermissions,
        ),
        milestone_refusal(archived, can_manage) is None <==> (!archived && can_manage),
{
}

/// Merges a change into a milestone: checked as any milestone change, then
/// refused when the resulting title is empty; the description always
/// becomes a text, the due date and closed flag are kept unless given (a
/// due date given as null clears it).
/// `existing` is `None` when the milestone does not exist.
pub fn merge_milestone_update(
    archived: bool,
    can_manage: bool,
    existing: Option<MilestoneFields>,
    req: UpdateMilestoneRequest,
) -> (r: Result<MilestoneFields, MilestoneError>)
    ensures
        match milestone_refusal(archived, can_manage) {
            Some(e) => r matches Err(x) && x == e,
            None => match existing {
                None => r matches Err(x) && x == MilestoneError::NotFound,
                Some(m) => if merged_title(m.title@, req.title).len() == 0 {
                    r matches Err(x) && x == MilestoneError::EmptyTitle
                } else {
                    r matches Ok(n) && {
                        &&& n.title@ == merged_title(m.title@, req.title)
                        &&& n.description matches Some(d) && d@ == merged_description(m.description, req.description)
                        &&& n.due_date == (match req.due_date {
                            Some(d) => d,
                            None => m.due_date,
                        })
                        &&& n.closed == (match req.closed {
                            Some(c) => c,
                            None => m.closed,
                        })
                    }
                },
            },
        },
{
    if archived {
        return Err(MilestoneError::Archived);
    }
    if !can_manage {
        return Err(MilestoneError::InsufficientPermissions);
    }
    let m = match existing {
        Some(m) => m,
        None => {
            return Err(MilestoneError::NotFound);
        },
    };
    let title = match req.title {
        Some(t) => trimmed(t.as_str()),
        None => m.title,
    };
    if title.as_str().is_empty() {
        return Err(MilestoneError::EmptyTitle);
    }
    let description = match req.description {
        Some(d) => trimmed(d.as_str()),
        None => match m.description {
            Some(d) => d,
            None => String::new(),
        },
    };
    let due_date = match req.due_date {
        Some(d) => d,
        None => m.due_date,
    };
    let closed = match req.closed {
        Some(c) => c,
        None => m.closed,
    };
    Ok(MilestoneFields { title, description: Some(description), due_date, closed })
}

/// Checks a request to delete a milestone: checked as any milestone change,
/// and the milestone must exist.
pub fn check_delete_milestone(archived: bool, can_manage: bool, exists: bool) -> (r: Result<(), MilestoneError>)
    ensures
        match milestone_refusal(archived, can_manage) {
            Some(e) => r == Err::<(), MilestoneError>(e),
            None => r == (if exists {
                Ok::<(), MilestoneError>(())
            } else {
                Err(MilestoneError::NotFound)
            }),
        },
{
    if archived {
        Err(MilestoneError::Archived)
    } else if !can_manage {
        Err(MilestoneError::InsufficientPermissions)
    } else if !exists {
        Err(MilestoneError::NotFound)
    } else {
        Ok(())
    }
}

} // verus!
