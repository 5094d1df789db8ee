//! Organisations: their roles, who may manage members, create, delete and
//! list them, and the rules for their names.

use vstd::prelude::*;
use crate::repo::{check_description, description_fits, is_name_char, name_well_formed};
use crate::text::chars_of;

verus! {

/// The role of a member of an organisation.
#[derive(Clone, Copy, PartialEq, Eq, Structural, Debug)]
pub enum OrgRole {
    Owner,
    Admin,
    Member,
}

/// The role given to a new member when none is named.
pub fn default_role() -> (r: OrgRole)
    ensures
        r == OrgRole::Member,
{
    OrgRole::Member
}

/// The standing of a role: owners above admins above members.
pub open spec fn role_rank(r: OrgRole) -> int {
    match r {
        OrgRole::Owner => 2,
        OrgRole::Admin => 1,
        OrgRole::Member => 0,
    }
}

/// Whether a member with role `role` has the rights of `required`.
pub fn has_permission(role: OrgRole, required: OrgRole) -> (r: bool)
    ensures
        r == (role_rank(role) >= role_rank(required)),
{
    let a: u8 = match role {
        OrgRole::Owner => 2,
        OrgRole::Admin => 1,
        OrgRole::Member => 0,
    };
    let b: u8 = match required {
        OrgRole::Owner => 2,
        OrgRole::Admin => 1,
        OrgRole::Member => 0,
    };
    a >= b
}

/// Whether an optional role has the rights of `required`.
pub open spec fn role_allows(role: Option<OrgRole>, required: OrgRole) -> bool {
    match role {
        Some(r) => role_rank(r) >= role_rank(required),
        None => false,
    }
}

fn allows(role: Option<OrgRole>, required: OrgRole) -> (r: bool)
    ensures
        r == role_allows(role, required),
{
    match role {
        Some(x) => has_permission(x, required),
        None => false,
    }
}

/// Why a request on an organisation is refused.
#[derive(Clone, Copy, PartialEq, Eq, Structural, Debug)]
pub enum OrgError {
    /// No organisation has that name
    OrgNotFound,
    /// No user has that name
    UserNotFound,
    /// The actor may not manage the members
    CannotManageMembers,
    /// Only an owner may change the role of another owner
    OwnerRoleProtected,
    /// The actor may not remove that member
    CannotRemoveMembers,
    /// The member is the last owner
    LastOwner,
    /// The actor may not delete the organisation
    CannotDelete,
    /// The name is empty, longer than 32 characters, or has a character
    /// other than `a-z`, `0-9`, `_`, `-`
    MalformedName,
    /// The name is reserved
    ReservedName,
    /// A user or organisation already has the name
    NameTaken,
    /// The description is longer than 256 bytes
    DescriptionTooLong,
}

/// What a request to create an organisation is refused for, in the order
/// the checks are made (`reserved` and `taken` are what the service's
/// namespace rules and its database say of the name).
pub open spec fn new_org_problem(name: Seq<char>, reserved: bool, taken: bool, description: Seq<char>) -> Option<OrgError> {
    if !name_well_formed(name) {
        Some(OrgError::MalformedName)
    } else if reserved {
        Some(OrgError::ReservedName)
    } else if taken {
        Some(OrgError::NameTaken)
    } else if !description_fits(description) {
        Some(OrgError::DescriptionTooLong)
    } else {
        None
    }
}

fn well_formed_name(name: &str) -> (b: bool)
    ensures
        b == name_well_formed(name@),
{
    let cs = chars_of(name);
    if cs.len() == 0 || cs.len() > 32 {
        return false;
    }
    let mut i: usize = 0;
    while i < cs.len()
        invariant
            i <= cs@.len(),
            cs@ == name@,
            forall|k: int| 0 <= k < i ==> #[trigger] is_name_char(cs@[k]),
        decreases cs@.len() - i,
    {
        let c = cs[i];
        if !(('a' <= c && c <= 'z') || ('0' <= c && c <= '9') || c == '_' || c == '-') {
            assert(!is_name_char(cs@[i as int]));
            return false;
        }
        i += 1;
    }
    true
}

/// Checks a request to create an organisation; see [`new_org_problem`].
/// The creator becomes its owner.
pub fn check_new_org(name: &str, reserved: bool, taken: bool, description: &str) -> (r: Result<OrgRole, OrgError>)
    ensures
        match new_org_problem(name@, reserved, taken, description@) {
            Some(e) => r == Err::<OrgRole, OrgError>(e),
            None => r == Ok::<OrgRole, OrgError>(OrgRole::Owner),
        },
{
    if !well_formed_name(name) {
        Err(OrgError::MalformedName)
    } else if reserved {
        Err(OrgError::ReservedName)
    } else if taken {
        Err(OrgError::NameTaken)
    } else if !check_description(description) {
        Err(OrgError::DescriptionTooLong)
    } else {
        Ok(OrgRole::Owner)
    }
}

/// Whether an actor may set a member's role: admins and owners may, but
/// the role of an owner only an owner may change. `target` is `None` when
/// no user has the name, else the role the user has now, if any.
pub open spec fn add_member_outcome(actor_role: Option<OrgRole>, target: Option<Option<OrgRole>>) -> Result<(), OrgError> {
    if !role_allows(actor_role, OrgRole::Admin) {
        Err(OrgError::CannotManageMembers)
    } else {
        match target {
            None => Err(OrgError::UserNotFound),
            Some(existing) => if existing == Some(OrgRole::Owner) && !role_allows(actor_role, OrgRole::Owner) {
                Err(OrgError::OwnerRoleProtected)
            } else {
                Ok(())
            },
        }
    }
}

/// Decides a request to add a member or change a member's role; see
/// [`add_member_outcome`].
pub fn check_add_member(actor_role: Option<OrgRole>, target: Option<Option<OrgRole>>) -> (r: Result<(), OrgError>)
    ensures
        r == add_member_outcome(actor_role, target),
{
    if !allows(actor_role, OrgRole::Admin) {
        return Err(OrgError::CannotManageMembers);
    }
    match target {
        None => Err(OrgError::UserNotFound),
        Some(existing) => {
            let protected = match existing {
                Some(OrgRole::Owner) => true,
                _ => false,
            };
            if protected && !allows(actor_role, OrgRole::Owner) {
                Err(OrgError::OwnerRoleProtected)
            } else {
                Ok(())
            }
        },
    }
}

/// Whether a member may be removed: a user may always leave, others need
/// an admin; and an owner is only removed while another owner remains.
/// `target` is `None` when no user has the name, else whether it is the
/// actor and the role it has; `owner_count` is how many owners there are.
pub open spec fn remove_member_outcome(
    actor_role: Option<OrgRole>,
    target: Option<(bool, Option<OrgRole>)>,
    owner_count: i64,
) -> Result<(), OrgError> {
    match target {
        None => Err(OrgError::UserNotFound),
        Some((is_self, role)) => if !is_self && !role_allows(actor_role, OrgRole::Admin) {
            Err(OrgError::CannotRemoveMembers)
        } else if role == Some(OrgRole::Owner) && owner_count <= 1 {
            Err(OrgError::LastOwner)
        } else {
            Ok(())
        },
    }
}

/// Decides a request to remove a member; see [`remove_member_outcome`].
pub fn check_remove_member(actor_role: Option<OrgRole>, target: Option<(bool, Option<OrgRole>)>, owner_count: i64) -> (r: Result<(), OrgError>)
    ensures
        r == remove_member_outcome(actor_role, target, owner_count),
{
    match target {
        None => Err(OrgError::UserNotFound),
        Some((is_self, role)) => {
            if !is_self && !allows(actor_role, OrgRole::Admin) {
                return Err(OrgError::CannotRemoveMembers);
            }
            let owner = match role {
                Some(OrgRole::Owner) => true,
                _ => false,
            };
            if owner && owner_count <= 1 {
                Err(OrgError::LastOwner)
            } else {
                Ok(())
            }
        },
    }
}

/// Removing a member never removes the last owner, and a member who is
/// not an admin or owner can remove nobody but themselves.
pub proof fn lemma_remove_member_keeps_an_owner(actor_role: Option<OrgRole>, target: Option<(bool, Option<OrgRole>)>, owner_count: i64)
    ensures
        remove_member_outcome(actor_role, target, owner_count) is Ok && target.unwrap().1 == Some(OrgRole::Owner) ==> owner_count > 1,
        remove_member_outcome(actor_role, target, owner_count) is Ok && !role_allows(actor_role, OrgRole::Admin) ==> target.unwrap().0,
{
}

/// Only an owner can change the role of an owner, and only admins and
/// owners change roles at all.
pub proof fn lemma_owner_roles_protected(actor_role: Option<OrgRole>, target: Option<Option<OrgRole>>)
    ensures
        add_member_outcome(actor_role, target) is Ok ==> role_allows(actor_role, OrgRole::Admin),
        add_member_outcome(actor_role, target) is Ok && target == Some(Some(OrgRole::Owner)) ==> actor_role == Some(OrgRole::Owner),
{
}

/// Decides a request to delete an organisation: admins and owners may.
pub fn check_delete_org(actor_role: Option<OrgRole>) -> (r: Result<(), OrgError>)
    ensures
        role_allows(actor_role, OrgRole::Admin) ==> r is Ok,
        !role_allows(actor_role, OrgRole::Admin) ==> r == Err::<(), OrgError>(OrgError::CannotDelete),
{
    if allows(actor_role, OrgRole::Admin) {
        Ok(())
    } else {
        Err(OrgError::CannotDelete)
    }
}

/// Who may see a repository.
#[derive(Clone, Copy, PartialEq, Eq, Structural, Debug)]
pub enum RepoVisibility {
    Public,
    Internal,
    Private,
}

/// What a viewer of an organisation's repositories sees: signed-in
/// viewers internal ones, administrators of the instance and members of
/// the organisation private ones. `viewer` is `None` for an anonymous
/// viewer, else whether the viewer is an administrator and whether a member.
pub open spec fn org_repo_shown(viewer: Option<(bool, bool)>, v: RepoVisibility) -> bool {
    match v {
        RepoVisibility::Public => true,
        RepoVisibility::Internal => viewer is Some,
        RepoVisibility::Private => match viewer {
            Some((admin, member)) => admin || member,
            None => false,
        },
    }
}

/// Whether an organisation's repository of visibility `v` is listed for a
/// viewer; see [`org_repo_shown`].
pub fn org_repo_visible(viewer: Option<(bool, bool)>, v: RepoVisibility) -> (r: bool)
    ensures
        r == org_repo_shown(viewer, v),
{
    match v {
        RepoVisibility::Public => true,
        RepoVisibility::Internal => viewer.is_some(),
        RepoVisibility::Private => match viewer {
            Some((admin, member)) => admin || member,
            None => false,
        },
    }
}

/// Law: owners have every right, members only those of members, and a
/// viewer without a role none; anonymous viewers only see public
/// repositories of an organisation, and private ones are seen only by
/// members and instance administrators.
pub proof fn lemma_role_order(required: OrgRole, viewer: Option<(bool, bool)>, v: RepoVisibility)
    ensures
        role_allows(Some(OrgRole::Owner), required),
        role_allows(Some(OrgRole::Member), required) <==> required == OrgRole::Member,
        role_allows(Some(OrgRole::Admin), required) <==> required != OrgRole::Owner,
        !role_allows(None, required),
        viewer is None ==> (org_repo_shown(viewer, v) <==> v == RepoVisibility::Public),
        v == RepoVisibility::Private && org_repo_shown(viewer, v) ==> (viewer matches Some((admin, member)) && (admin
            || member)),
        v == RepoVisibility::Public ==> org_repo_shown(viewer, v),
{
}

} // verus!
