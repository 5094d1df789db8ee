//! Access to a repository: the check in front of every change, the
//! permissions a viewer holds, collaborators, and stars.

use vstd::prelude::*;
use vstd::string::StringExecFns;
use crate::org::RepoVisibility;

verus! {

/// Why a change to a repository is refused.
#[derive(Clone, Copy, PartialEq, Eq, Structural, Debug)]
pub enum AccessError {
    /// The repository is archived and read-only
    Archived,
    /// The user lacks the privilege the change needs
    InsufficientPermissions,
    /// No user has the name given
    UserNotFound,
    /// The owner's own privileges cannot be changed
    OwnerPrivileges,
    /// The owner cannot be removed
    OwnerRemoval,
    /// Viewers are only for private repositories
    ViewerOnNonPrivate,
    /// The user is no collaborator
    CollaboratorNotFound,
    /// The repository is already starred
    AlreadyStarred,
    /// The repository is not starred
    NotStarred,
}

/// The check in front of a change: refused in an archived repository, then
/// refused without the privilege the change needs.
pub fn check_write(archived: bool, permitted: bool) -> (r: Result<(), AccessError>)
    ensures
        archived ==> r == Err::<(), AccessError>(AccessError::Archived),
        !archived && !permitted ==> r == Err::<(), AccessError>(AccessError::InsufficientPermissions),
        !archived && permitted ==> r is Ok,
{
    if archived {
        Err(AccessError::Archived)
    } else if !permitted {
        Err(AccessError::InsufficientPermissions)
    } else {
        Ok(())
    }
}

/// What a viewer may do in a repository.
#[derive(Clone, Copy, PartialEq, Eq, Structural, Debug)]
pub struct RepoPermissions {
    pub view: bool,
    pub push: bool,
    pub manage_issues: bool,
    pub admin: bool,
}

/// The permissions of a viewer: anonymous viewers and users without a
/// privilege may only view; the owner and instance administrators may do
/// everything; other users have what their privilege grants (`granted`,
/// as the privilege's access level gives it). `viewer` is `None` for an
/// anonymous viewer, else whether the viewer owns the repository and
/// whether the viewer is an instance administrator.
pub open spec fn permissions_of(viewer: Option<(bool, bool)>, granted: Option<RepoPermissions>) -> RepoPermissions {
    let view_only = RepoPermissions { view: true, push: false, manage_issues: false, admin: false };
    match viewer {
        None => view_only,
        Some((owner, instance_admin)) => if owner || instance_admin {
            RepoPermissions { view: true, push: true, manage_issues: true, admin: true }
        } else {
            match granted {
                Some(p) => p,
                None => view_only,
            }
        },
    }
}

/// The permissions of a viewer; see [`permissions_of`].
pub fn repo_permissions(viewer: Option<(bool, bool)>, granted: Option<RepoPermissions>) -> (r: RepoPermissions)
    ensures
        r == permissions_of(viewer, granted),
{
    let view_only = RepoPermissions { view: true, push: false, manage_issues: false, admin: false };
    match viewer {
        None => view_only,
        Some((owner, instance_admin)) => {
            if owner || instance_admin {
                RepoPermissions { view: true, push: true, manage_issues: true, admin: true }
            } else {
                match granted {
                    Some(p) => p,
                    None => view_only,
                }
            }
        },
    }
}

/// Checks a request to grant or change a collaborator's access: the write check
/// with the admin privilege, then the user must exist and not own the
/// repository, and viewers are only for private repositories. `target` is
/// the user's id if one has the name; `viewer_level` is whether the access
/// asked for is that of a viewer.
pub fn check_upsert_collaborator(
    archived: bool,
    can_admin: bool,
    target: Option<u128>,
    owner_user: Option<u128>,
    viewer_level: bool,
    visibility: RepoVisibility,
) -> (r: Result<(), AccessError>)
    ensures
        r == (if archived {
            Err(AccessError::Archived)
        } else if !can_admin {
            Err(AccessError::InsufficientPermissions)
        } else if target is None {
            Err(AccessError::UserNotFound)
        } else if owner_user == target {
            Err(AccessError::OwnerPrivileges)
        } else if viewer_level && visibility != RepoVisibility::Private {
            Err(AccessError::ViewerOnNonPrivate)
        } else {
            Ok(())
        }),
{
    check_write(archived, can_admin)?;
    let t = match target {
        Some(t) => t,
        None => {
            return Err(AccessError::UserNotFound);
        },
    };
    match owner_user {
        Some(o) => if o == t {
            return Err(AccessError::OwnerPrivileges);
        },
        None => {},
    }
    let private = match visibility {
        RepoVisibility::Private => true,
        _ => false,
    };
    if viewer_level && !private {
        return Err(AccessError::ViewerOnNonPrivate);
    }
    Ok(())
}

/// The event recorded when a collaborator's access is set: a change when
/// the user already had a privilege, a grant otherwise.
pub fn privilege_event(had_privilege: bool) -> (r: &'static str)
    ensures
        r@ == (if had_privilege {
            "privilege.changed"@
        } else {
            "privilege.granted"@
        }),
{
    if had_privilege {
        "privilege.changed"
    } else {
        "privilege.granted"
    }
}

/// Checks a request to remove a collaborator: the write check with the admin
/// privilege, then the user must exist and not own the repository, and
/// the removal must have removed a privilege (`removed` is how many rows
/// it removed).
pub fn check_remove_collaborator(
    archived: bool,
    can_admin: bool,
    target: Option<u128>,
    owner_user: Option<u128>,
    removed: u64,
) -> (r: Result<(), AccessError>)
    ensures
        r == (if archived {
            Err(AccessError::Archived)
        } else if !can_admin {
            Err(AccessError::InsufficientPermissions)
        } else if target is None {
            Err(AccessError::UserNotFound)
        } else if owner_user == target {
            Err(AccessError::OwnerRemoval)
        } else if removed == 0 {
            Err(AccessError::CollaboratorNotFound)
        } else {
            Ok(())
        }),
{
    check_write(archived, can_admin)?;
    let t = match target {
        Some(t) => t,
        None => {
            return Err(AccessError::UserNotFound);
        },
    };
    match owner_user {
        Some(o) => if o == t {
            return Err(AccessError::OwnerRemoval);
        },
        None => {},
    }
    if removed == 0 {
        Err(AccessError::CollaboratorNotFound)
    } else {
        Ok(())
    }
}

/// What a star request does.
#[derive(Clone, Copy, PartialEq, Eq, Structural, Debug)]
pub enum StarAction {
    Add,
    Remove,
}

/// Whether a user has starred a repository after an action.
pub open spec fn starred_after(a: StarAction) -> bool {
    a == StarAction::Add
}

/// What starring does: refused when already starred, else adds the star.
pub open spec fn star_outcome(starred: bool) -> Result<StarAction, AccessError> {
    if starred {
        Err(AccessError::AlreadyStarred)
    } else {
        Ok(StarAction::Add)
    }
}

/// Starring; see [`star_outcome`].
pub fn star(starred: bool) -> (r: Result<StarAction, AccessError>)
    ensures
        r == star_outcome(starred),
{
    if starred {
        Err(AccessError::AlreadyStarred)
    } else {
        Ok(StarAction::Add)
    }
}

/// What unstarring does: refused when not starred, else removes the star.
pub open spec fn unstar_outcome(starred: bool) -> Result<StarAction, AccessError> {
    if !starred {
        Err(AccessError::NotStarred)
    } else {
        Ok(StarAction::Remove)
    }
}

/// Unstarring; see [`unstar_outcome`].
pub fn unstar(starred: bool) -> (r: Result<StarAction, AccessError>)
    ensures
        r == unstar_outcome(starred),
{
    if !starred {
        Err(AccessError::NotStarred)
    } else {
        Ok(StarAction::Remove)
    }
}

/// What a toggle does: removes the star when starred, adds it otherwise.
pub open spec fn toggled(starred: bool) -> StarAction {
    if starred {
        StarAction::Remove
    } else {
        StarAction::Add
    }
}

/// Toggling a star; see [`toggled`].
pub fn toggle_star(starred: bool) -> (r: StarAction)
    ensures
        r == toggled(starred),
{
    if starred {
        StarAction::Remove
    } else {
        StarAction::Add
    }
}

/// The name of the `x-gitarena-action` header that reports a toggle.
pub fn star_action_name(a: StarAction) -> (r: &'static str)
    ensures
        r@ == (match a {
            StarAction::Add => "add"@,
            StarAction::Remove => "remove"@,
        }),
{
    match a {
        StarAction::Add => "add",
        StarAction::Remove => "remove",
    }
}

/// A toggle always flips whether the repository is starred, so toggling
/// twice leaves it as it was; starring succeeds exactly when it is not
/// starred and leaves it starred; unstarring succeeds exactly when it is
/// starred and leaves it unstarred.
pub proof fn lemma_star_state(starred: bool)
    ensures
        starred_after(toggled(starred)) == !starred,
        starred_after(toggled(starred_after(toggled(starred)))) == starred,
        (match star_outcome(starred) {
            Ok(a) => !starred && starred_after(a),
            Err(e) => starred && e == AccessError::AlreadyStarred,
        }),
        (match unstar_outcome(starred) {
            Ok(a) => starred && !starred_after(a),
            Err(e) => !starred && e == AccessError::NotStarred,
        }),
{
}

/// Which forks are counted for a viewer: signed-in viewers count all but
/// private ones, anonymous viewers only public ones.
pub open spec fn fork_counted(signed_in: bool, v: RepoVisibility) -> bool {
    if signed_in {
        v != RepoVisibility::Private
    } else {
        v == RepoVisibility::Public
    }
}

/// The visibility condition of the fork count query; see [`fork_counted`].
pub fn fork_visibility_filter(signed_in: bool) -> (r: &'static str)
    ensures
        r@ == (if signed_in {
            "visibility != 'private'"@
        } else {
            "visibility = 'public'"@
        }),
{
    if signed_in {
        "visibility != 'private'"
    } else {
        "visibility = 'public'"
    }
}

/// The query that counts a repository's forks (its id bound as `$1`) that
/// are not disabled and that the viewer may count; see [`fork_counted`].
pub open spec fn fork_count_query_text(signed_in: bool) -> Seq<char> {
    "select count(*) from repositories where forked_from = $1 and disabled = false and "@ + (if signed_in {
        "visibility != 'private'"@
    } else {
        "visibility = 'public'"@
    })
}

/// Writes the fork count query; see [`fork_count_query_text`].
pub fn fork_count_query(signed_in: bool) -> (r: String)
    ensures
        r@ == fork_count_query_text(signed_in),
{
    let mut s = String::from_str("select count(*) from repositories where forked_from = $1 and disabled = false and ");
    s.append(fork_visibility_filter(signed_in));
    s
}

/// The event recorded when a star is added or removed.
pub fn star_event(a: StarAction) -> (r: &'static str)
    ensures
        r@ == (match a {
            StarAction::Add => "star.added"@,
            StarAction::Remove => "star.removed"@,
        }),
{
    match a {
        StarAction::Add => "star.added",
        StarAction::Remove => "star.removed",
    }
}

/// Law: anonymous viewers may only view; the owner and instance
/// administrators may do everything; any other user has exactly what their
/// privilege grants, and only viewing without one. Forks are counted for
/// anonymous viewers only when public, and never when private.
pub proof fn lemma_permission_rules(viewer: Option<(bool, bool)>, granted: Option<RepoPermissions>, signed_in: bool, v: RepoVisibility)
    ensures
        viewer is None ==> permissions_of(viewer, granted).view && !permissions_of(viewer, granted).push
            && !permissions_of(viewer, granted).manage_issues && !permissions_of(viewer, granted).admin,
        viewer matches Some((owner, instance_admin)) && (owner || instance_admin) ==> {
            let p = permissions_of(viewer, granted);
            p.view && p.push && p.manage_issues && p.admin
        },
        viewer matches Some((owner, instance_admin)) && !owner && !instance_admin ==> permissions_of(viewer, granted)
            == match granted {
            Some(g) => g,
            None => RepoPermissions { view: true, push: false, manage_issues: false, admin: false },
        },
        v == RepoVisibility::Private ==> !fork_counted(signed_in, v),
        v == RepoVisibility::Public ==> fork_counted(signed_in, v),
        !signed_in ==> (fork_counted(signed_in, v) <==> v == RepoVisibility::Public),
        signed_in && v == RepoVisibility::Internal ==> fork_counted(signed_in, v),
{
}

} // verus!
