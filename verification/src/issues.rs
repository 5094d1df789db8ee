//! Issues: who may see, open, change and delete them, and what an update
//! request changes, in which order, and where it stops.

use vstd::prelude::*;
use crate::labels::{conflicting_scope, first_conflict_from, labels_after, labels_after_change, texts};
use crate::text::{trim, trimmed};

verus! {

/// The status of an issue.
#[derive(Clone, Copy, PartialEq, Eq, Structural, Debug)]
pub enum IssueStatus {
    Open,
    InProgress,
    Completed,
    NotPlanned,
}

/// Whether a status counts as open (open or in progress) rather than
/// closed (completed or not planned), as milestone progress counts it.
pub fn counts_as_open(s: IssueStatus) -> (r: bool)
    ensures
        r == (s == IssueStatus::Open || s == IssueStatus::InProgress),
{
    match s {
        IssueStatus::Open | IssueStatus::InProgress => true,
        IssueStatus::Completed | IssueStatus::NotPlanned => false,
    }
}

/// Why a request on an issue is refused.
pub enum IssueError {
    /// The repository is archived and read-only
    Archived,
    /// The user may not do this
    InsufficientPermissions,
    /// The title is empty once trimmed
    EmptyTitle,
    /// Two labels share the scope given
    ScopeConflict(String),
    /// There is no such issue, or the viewer may not see it
    NotFound,
}

/// Mathematical view of [`IssueError`].
pub enum IssueErrorView {
    Archived,
    InsufficientPermissions,
    EmptyTitle,
    ScopeConflict(Seq<char>),
    NotFound,
}

impl View for IssueError {
    type V = IssueErrorView;

    open spec fn view(&self) -> IssueErrorView {
        match self {
            IssueError::Archived => IssueErrorView::Archived,
            IssueError::InsufficientPermissions => IssueErrorView::InsufficientPermissions,
            IssueError::EmptyTitle => IssueErrorView::EmptyTitle,
            IssueError::ScopeConflict(s) => IssueErrorView::ScopeConflict(s@),
            IssueError::NotFound => IssueErrorView::NotFound,
        }
    }
}

/// The view of an optional refusal.
pub open spec fn refusal_view(e: Option<IssueError>) -> Option<IssueErrorView> {
    match e {
        Some(e) => Some(e@),
        None => None,
    }
}

/// Whether a title is empty once trimmed.
pub open spec fn blank(s: Seq<char>) -> bool {
    trim(s).len() == 0
}

/// The labels of a request's optional list.
pub open spec fn label_list(v: Option<Vec<String>>) -> Seq<Seq<char>> {
    match v {
        Some(v) => texts(v@),
        None => Seq::empty(),
    }
}

/// Whether a viewer may see the confidential issues of a repository: only
/// the user who owns it.
pub open spec fn sees_confidential(viewer: Option<u128>, owner_user: Option<u128>) -> bool {
    viewer is Some && owner_user == viewer
}

/// Whether a viewer may see the confidential issues of a repository; see
/// [`sees_confidential`].
pub fn show_confidential(viewer: Option<u128>, owner_user: Option<u128>) -> (r: bool)
    ensures
        r == sees_confidential(viewer, owner_user),
{
    match viewer {
        Some(v) => match owner_user {
            Some(o) => o == v,
            None => false,
        },
        None => false,
    }
}

/// Whether an issue is shown to a viewer: confidential issues only to
/// those who see confidential issues.
pub fn issue_visible(confidential: bool, viewer: Option<u128>, owner_user: Option<u128>) -> (r: bool)
    ensures
        r == (!confidential || sees_confidential(viewer, owner_user)),
{
    !confidential || show_confidential(viewer, owner_user)
}

/// Whether a check refused with the error `v`.
pub open spec fn refused_with(r: Result<(), IssueError>, v: IssueErrorView) -> bool {
    match r {
        Err(e) => e@ == v,
        Ok(_) => false,
    }
}

/// Checks a request to open an issue: not in an archived repository, with
/// a title that is not blank, and with at most one label per scope.
pub fn check_new_issue(archived: bool, title: &str, labels: Option<&[String]>) -> (r: Result<(), IssueError>)
    ensures
        archived ==> refused_with(r, IssueErrorView::Archived),
        !archived && blank(title@) ==> refused_with(r, IssueErrorView::EmptyTitle),
        !archived && !blank(title@) ==> match labels {
            Some(l) => match first_conflict_from(texts(l@), 0) {
                Some(s) => refused_with(r, IssueErrorView::ScopeConflict(s)),
                None => r is Ok,
            },
            None => r is Ok,
        },
{
    if archived {
        return Err(IssueError::Archived);
    }
    let t = trimmed(title);
    if t.as_str().is_empty() {
        return Err(IssueError::EmptyTitle);
    }
    match labels {
        Some(l) => {
            if l.len() > 0 {
                match conflicting_scope(l) {
                    Some(s) => {
                        return Err(IssueError::ScopeConflict(s));
                    },
                    None => {},
                }
            } else {
                assert(first_conflict_from(texts(l@), 0) is None);
            }
        },
        None => {},
    }
    Ok(())
}

/// The priority of a new issue: the one asked for, else `none`.
pub fn new_issue_priority(priority: Option<&str>) -> (r: &str)
    ensures
        r@ == match priority {
            Some(p) => p@,
            None => "none"@,
        },
{
    match priority {
        Some(p) => p,
        None => "none",
    }
}

/// Checks a request to delete an issue: not in an archived repository,
/// and only by those who manage issues.
pub fn check_delete_issue(archived: bool, can_manage: bool) -> (r: Result<(), IssueError>)
    ensures
        archived ==> refused_with(r, IssueErrorView::Archived),
        !archived && !can_manage ==> refused_with(r, IssueErrorView::InsufficientPermissions),
        !archived && can_manage ==> r is Ok,
{
    if archived {
        Err(IssueError::Archived)
    } else if !can_manage {
        Err(IssueError::InsufficientPermissions)
    } else {
        Ok(())
    }
}

/// A change that an update request makes to an issue; the new value is
/// the request's.
#[derive(Clone, Copy, PartialEq, Eq, Structural, Debug)]
pub enum IssueChange {
    Title,
    Body,
    Status,
    Labels,
    Confidential,
    Locked,
    Assignees,
    Priority,
    Milestone,
}

/// A request to update an issue; absent fields are left as they are.
pub struct UpdateIssueRequest {
    pub title: Option<String>,
    pub body: Option<String>,
    pub status: Option<IssueStatus>,
    pub priority: Option<String>,
    pub labels_add: Option<Vec<String>>,
    pub labels_remove: Option<Vec<String>>,
    pub confidential: Option<bool>,
    pub locked: Option<bool>,
    pub assignees: Option<Vec<u128>>,
    /// `Some(None)` clears the milestone
    pub milestone_id: Option<Option<u128>>,
}

/// The changes an update makes, and where it stops: `changes` are made in
/// order, and when `refusal` is given the request is answered with it
/// after them.
pub struct IssueUpdatePlan {
    pub changes: Vec<IssueChange>,
    pub refusal: Option<IssueError>,
}

/// `c` when `present`, nothing otherwise.
pub open spec fn step_if(present: bool, c: IssueChange) -> Seq<IssueChange> {
    if present {
        seq![c]
    } else {
        Seq::empty()
    }
}

/// The fields that only those who manage issues may change, in the order
/// they are written.
#[verifier::opaque]
pub open spec fn managed_steps(req: UpdateIssueRequest) -> Seq<IssueChange> {
    step_if(req.confidential is Some, IssueChange::Confidential) + step_if(req.locked is Some, IssueChange::Locked)
        + step_if(req.assignees is Some, IssueChange::Assignees) + step_if(req.priority is Some, IssueChange::Priority)
        + step_if(req.milestone_id is Some, IssueChange::Milestone)
}

/// The changes to title, body and status that an update asks for.
#[verifier::opaque]
pub open spec fn basic_steps(req: UpdateIssueRequest) -> Seq<IssueChange> {
    step_if(req.title is Some, IssueChange::Title) + step_if(req.body is Some, IssueChange::Body)
        + step_if(req.status is Some, IssueChange::Status)
}

/// Whether an update adds or removes labels.
pub open spec fn relabels(req: UpdateIssueRequest) -> bool {
    label_list(req.labels_add).len() > 0 || label_list(req.labels_remove).len() > 0
}

/// The scope that the labels after an update would repeat, if the update
/// changes labels and they would.
#[verifier::opaque]
pub open spec fn label_conflict(current: Seq<Seq<char>>, req: UpdateIssueRequest) -> Option<Seq<char>> {
    if relabels(req) {
        first_conflict_from(labels_after(current, label_list(req.labels_add), label_list(req.labels_remove)), 0)
    } else {
        None
    }
}

/// What an update request does to an issue whose labels are `current`:
/// it is refused in an archived repository, and to those who neither
/// manage issues nor wrote the issue, and for a blank title; otherwise the
/// title, body and status are changed as asked; a label change is refused
/// when the resulting labels repeat a scope (after the changes before it),
/// else made; and last the fields only managers may change are changed,
/// for managers.
pub open spec fn update_plan(
    archived: bool,
    can_manage: bool,
    is_author: bool,
    current: Seq<Seq<char>>,
    req: UpdateIssueRequest,
) -> (Seq<IssueChange>, Option<IssueErrorView>) {
    if archived {
        (Seq::empty(), Some(IssueErrorView::Archived))
    } else if !can_manage && !is_author {
        (Seq::empty(), Some(IssueErrorView::InsufficientPermissions))
    } else if req.title matches Some(t) && blank(t@) {
        (Seq::empty(), Some(IssueErrorView::EmptyTitle))
    } else {
        match label_conflict(current, req) {
            Some(s) => (basic_steps(req), Some(IssueErrorView::ScopeConflict(s))),
            None => (
                basic_steps(req) + step_if(relabels(req), IssueChange::Labels) + (if can_manage {
                    managed_steps(req)
                } else {
                    Seq::empty()
                }),
                None,
            ),
        }
    }
}

fn push_if(v: &mut Vec<IssueChange>, present: bool, c: IssueChange)
    ensures
        final(v)@ == old(v)@ + step_if(present, c),
{
    if present {
        v.push(c);
    } else {
        assert(old(v)@ + step_if(present, c) =~= old(v)@);
    }
}

fn label_check(current: &[String], req: &UpdateIssueRequest) -> (r: Option<String>)
    ensures
        match label_conflict(texts(current@), *req) {
            Some(s) => r matches Some(x) && x@ == s,
            None => r is None,
        },
{
    reveal(label_conflict);
    let empty: Vec<String> = Vec::new();
    let add: &[String] = match &req.labels_add {
        Some(v) => v.as_slice(),
        None => empty.as_slice(),
    };
    let remove: &[String] = match &req.labels_remove {
        Some(v) => v.as_slice(),
        None => empty.as_slice(),
    };
    assert(texts(add@) == label_list(req.labels_add));
    assert(texts(remove@) == label_list(req.labels_remove));
    if add.len() > 0 || remove.len() > 0 {
        let resulting = labels_after_change(current, add, remove);
        conflicting_scope(resulting.as_slice())
    } else {
        None
    }
}

fn relabel_requested(req: &UpdateIssueRequest) -> (b: bool)
    ensures
        b == relabels(*req),
{
    let adds = match &req.labels_add {
        Some(a) => a.len() > 0,
        None => false,
    };
    let removes = match &req.labels_remove {
        Some(r) => r.len() > 0,
        None => false,
    };
    adds || removes
}

fn push_managed(changes: &mut Vec<IssueChange>, req: &UpdateIssueRequest)
    ensures
        final(changes)@ == old(changes)@ + managed_steps(*req),
{
    reveal(managed_steps);
    push_if(changes, req.confidential.is_some(), IssueChange::Confidential);
    push_if(changes, req.locked.is_some(), IssueChange::Locked);
    push_if(changes, req.assignees.is_some(), IssueChange::Assignees);
    push_if(changes, req.priority.is_some(), IssueChange::Priority);
    push_if(changes, req.milestone_id.is_some(), IssueChange::Milestone);
    assert(changes@ =~= old(changes)@ + managed_steps(*req));
}

/// Plans an update of an issue whose labels are `current`; see
/// [`update_plan`].
pub fn plan_issue_update(
    archived: bool,
    can_manage: bool,
    is_author: bool,
    current: &[String],
    req: &UpdateIssueRequest,
) -> (r: IssueUpdatePlan)
    ensures
        r.changes@ == update_plan(archived, can_manage, is_author, texts(current@), *req).0,
        refusal_view(r.refusal) == update_plan(archived, can_manage, is_author, texts(current@), *req).1,
{
    let mut changes: Vec<IssueChange> = Vec::new();
    if archived {
        return IssueUpdatePlan { changes, refusal: Some(IssueError::Archived) };
    }
    if !can_manage && !is_author {
        return IssueUpdatePlan { changes, refusal: Some(IssueError::InsufficientPermissions) };
    }
    match &req.title {
        Some(t) => {
            let tt = trimmed(t.as_str());
            if tt.as_str().is_empty() {
                return IssueUpdatePlan { changes, refusal: Some(IssueError::EmptyTitle) };
            }
        },
        None => {},
    }
    assert(changes@ =~= Seq::<IssueChange>::empty());
    push_if(&mut changes, req.title.is_some(), IssueChange::Title);
    push_if(&mut changes, req.body.is_some(), IssueChange::Body);
    push_if(&mut changes, req.status.is_some(), IssueChange::Status);
    assert(changes@ =~= basic_steps(*req)) by {
        reveal(basic_steps);
    }
    match label_check(current, req) {
        Some(s) => {
            return IssueUpdatePlan { changes, refusal: Some(IssueError::ScopeConflict(s)) };
        },
        None => {},
    }
    let relabel = relabel_requested(req);
    push_if(&mut changes, relabel, IssueChange::Labels);
    if can_manage {
        push_managed(&mut changes, req);
    } else {
        assert(changes@ =~= changes@ + Seq::<IssueChange>::empty());
    }
    IssueUpdatePlan { changes, refusal: None }
}

/// Whether a change is one that only those who manage issues may make.
pub open spec fn manager_only(c: IssueChange) -> bool {
    c == IssueChange::Confidential || c == IssueChange::Locked || c == IssueChange::Assignees || c == IssueChange::Priority
        || c == IssueChange::Milestone
}

/// Whether a change is one the request asked for.
pub open spec fn requested(req: UpdateIssueRequest, c: IssueChange) -> bool {
    match c {
        IssueChange::Title => req.title is Some,
        IssueChange::Body => req.body is Some,
        IssueChange::Status => req.status is Some,
        IssueChange::Labels => relabels(req),
        IssueChange::Confidential => req.confidential is Some,
        IssueChange::Locked => req.locked is Some,
        IssueChange::Assignees => req.assignees is Some,
        IssueChange::Priority => req.priority is Some,
        IssueChange::Milestone => req.milestone_id is Some,
    }
}

/// Whether every change of a sequence has property `p`.
pub open spec fn all_changes(s: Seq<IssueChange>, p: spec_fn(IssueChange) -> bool) -> bool {
    forall|i: int| 0 <= i < s.len() ==> p(#[trigger] s[i])
}

proof fn lemma_all_concat(a: Seq<IssueChange>, b: Seq<IssueChange>, p: spec_fn(IssueChange) -> bool)
    requires
        all_changes(a, p),
        all_changes(b, p),
    ensures
        all_changes(a + b, p),
{
    assert forall|i: int| 0 <= i < (a + b).len() implies p(#[trigger] (a + b)[i]) by {
        if i < a.len() {
            assert((a + b)[i] == a[i]);
        } else {
            assert((a + b)[i] == b[i - a.len()]);
        }
    }
}

proof fn lemma_all_step(present: bool, c: IssueChange, p: spec_fn(IssueChange) -> bool)
    requires
        present ==> p(c),
    ensures
        all_changes(step_if(present, c), p),
{
}

proof fn lemma_basic_all(req: UpdateIssueRequest, p: spec_fn(IssueChange) -> bool)
    requires
        req.title is Some ==> p(IssueChange::Title),
        req.body is Some ==> p(IssueChange::Body),
        req.status is Some ==> p(IssueChange::Status),
    ensures
        all_changes(basic_steps(req), p),
{
    reveal(basic_steps);
    lemma_all_step(req.title is Some, IssueChange::Title, p);
    lemma_all_step(req.body is Some, IssueChange::Body, p);
    lemma_all_step(req.status is Some, IssueChange::Status, p);
    lemma_all_concat(step_if(req.title is Some, IssueChange::Title), step_if(req.body is Some, IssueChange::Body), p);
    lemma_all_concat(
        step_if(req.title is Some, IssueChange::Title) + step_if(req.body is Some, IssueChange::Body),
        step_if(req.status is Some, IssueChange::Status),
        p,
    );
}

proof fn lemma_managed_all(req: UpdateIssueRequest, p: spec_fn(IssueChange) -> bool)
    requires
        req.confidential is Some ==> p(IssueChange::Confidential),
        req.locked is Some ==> p(IssueChange::Locked),
        req.assignees is Some ==> p(IssueChange::Assignees),
        req.priority is Some ==> p(IssueChange::Priority),
        req.milestone_id is Some ==> p(IssueChange::Milestone),
    ensures
        all_changes(managed_steps(req), p),
{
    reveal(managed_steps);
    let c1 = step_if(req.confidential is Some, IssueChange::Confidential);
    let c2 = step_if(req.locked is Some, IssueChange::Locked);
    let c3 = step_if(req.assignees is Some, IssueChange::Assignees);
    let c4 = step_if(req.priority is Some, IssueChange::Priority);
    let c5 = step_if(req.milestone_id is Some, IssueChange::Milestone);
    lemma_all_step(req.confidential is Some, IssueChange::Confidential, p);
    lemma_all_step(req.locked is Some, IssueChange::Locked, p);
    lemma_all_step(req.assignees is Some, IssueChange::Assignees, p);
    lemma_all_step(req.priority is Some, IssueChange::Priority, p);
    lemma_all_step(req.milestone_id is Some, IssueChange::Milestone, p);
    lemma_all_concat(c1, c2, p);
    lemma_all_concat(c1 + c2, c3, p);
    lemma_all_concat(c1 + c2 + c3, c4, p);
    lemma_all_concat(c1 + c2 + c3 + c4, c5, p);
}

proof fn lemma_plan_all(
    archived: bool,
    can_manage: bool,
    is_author: bool,
    current: Seq<Seq<char>>,
    req: UpdateIssueRequest,
    p: spec_fn(IssueChange) -> bool,
)
    requires
        req.title is Some ==> p(IssueChange::Title),
        req.body is Some ==> p(IssueChange::Body),
        req.status is Some ==> p(IssueChange::Status),
        relabels(req) ==> p(IssueChange::Labels),
        can_manage ==> {
            &&& req.confidential is Some ==> p(IssueChange::Confidential)
            &&& req.locked is Some ==> p(IssueChange::Locked)
            &&& req.assignees is Some ==> p(IssueChange::Assignees)
            &&& req.priority is Some ==> p(IssueChange::Priority)
            &&& req.milestone_id is Some ==> p(IssueChange::Milestone)
        },
    ensures
        all_changes(update_plan(archived, can_manage, is_author, current, req).0, p),
{
    lemma_basic_all(req, p);
    let first = basic_steps(req);
    let l = step_if(relabels(req), IssueChange::Labels);
    lemma_all_step(relabels(req), IssueChange::Labels, p);
    lemma_all_concat(first, l, p);
    if can_manage {
        lemma_managed_all(req, p);
        lemma_all_concat(first + l, managed_steps(req), p);
    } else {
        lemma_all_concat(first + l, Seq::<IssueChange>::empty(), p);
    }
}

/// An update only changes what it asks for; those who do not manage issues
/// never change the fields reserved to managers; an update refused for the
/// repository, the user or the title changes nothing; and an update that
/// is refused has changed at most title, body and status.
pub proof fn lemma_update_plan_respects_roles(
    archived: bool,
    can_manage: bool,
    is_author: bool,
    current: Seq<Seq<char>>,
    req: UpdateIssueRequest,
)
    ensures
        ({
            let (changes, refusal) = update_plan(archived, can_manage, is_author, current, req);
            &&& all_changes(changes, |c: IssueChange| requested(req, c))
            &&& !can_manage ==> all_changes(changes, |c: IssueChange| !manager_only(c))
            &&& (refusal == Some(IssueErrorView::Archived) || refusal == Some(IssueErrorView::InsufficientPermissions)
                || refusal == Some(IssueErrorView::EmptyTitle)) ==> changes.len() == 0
            &&& refusal is Some ==> all_changes(
                changes,
                |c: IssueChange| c == IssueChange::Title || c == IssueChange::Body || c == IssueChange::Status,
            )
        }),
{
    lemma_plan_all(archived, can_manage, is_author, current, req, |c: IssueChange| requested(req, c));
    if !can_manage {
        lemma_plan_all(archived, can_manage, is_author, current, req, |c: IssueChange| !manager_only(c));
    }
    let basic = |c: IssueChange| c == IssueChange::Title || c == IssueChange::Body || c == IssueChange::Status;
    lemma_basic_all(req, basic);
}

/// Law: only the user who owns a repository sees its confidential
/// issues; anonymous viewers never do; non-confidential issues are seen by
/// everyone.
pub proof fn lemma_confidential_issues(viewer: Option<u128>, owner_user: Option<u128>)
    ensures
        sees_confidential(viewer, owner_user) ==> viewer is Some && viewer == owner_user,
        viewer is None ==> !sees_confidential(viewer, owner_user),
        viewer is Some && viewer == owner_user ==> sees_confidential(viewer, owner_user),
{
}

} // verus!
