use gitarena::access::{
    check_remove_collaborator, check_upsert_collaborator, fork_count_query, fork_visibility_filter, star_event, privilege_event, repo_permissions, star, star_action_name,
    toggle_star, unstar, check_write, AccessError, RepoPermissions, StarAction,
};
use gitarena::locate::{archive_event, import_credentials, import_max_retries, namespace_owner, repo_fs_path, repo_owner, repo_visible};
use gitarena::org::{
    check_add_member, check_delete_org, check_new_org, check_remove_member, default_role, has_permission, org_repo_visible, OrgError, OrgRole,
    RepoVisibility,
};
use gitarena::repo::{
    check_description, check_import, check_new_repo, check_repo_name, choose_namespace, check_fork, fork_target, name_in_use_query, readme, repo_url, validate, Namespace,
    RepoError,
};

#[test]
fn repo_names_follow_the_documented_rules() {
    assert_eq!(check_repo_name("my-repo_1", false, true), None);
    assert_eq!(check_repo_name("", false, true), Some(RepoError::MalformedName));
    assert_eq!(check_repo_name("Upper", false, true), Some(RepoError::MalformedName));
    assert_eq!(check_repo_name("a.b", false, true), Some(RepoError::MalformedName));
    assert_eq!(check_repo_name(&"a".repeat(32), false, true), None);
    assert_eq!(check_repo_name(&"a".repeat(33), false, true), Some(RepoError::MalformedName));
    assert_eq!(check_repo_name("admin", true, true), Some(RepoError::ReservedName));
    assert_eq!(check_repo_name("con", false, false), Some(RepoError::IllegalName));
}

#[test]
fn descriptions_are_limited_to_256_bytes() {
    assert!(check_description(&"x".repeat(256)));
    assert!(!check_description(&"x".repeat(257)));
    assert!(!check_description(&"é".repeat(129)));
    assert!(check_description(&"é".repeat(128)));
    assert_eq!(check_new_repo("ok", false, true, &"x".repeat(300)), Err(RepoError::DescriptionTooLong));
    assert_eq!(check_new_repo("ok", false, true, "fine"), Ok(()));
}

#[test]
fn namespaces_are_the_user_or_a_member_organization() {
    assert_eq!(choose_namespace("alice", "alice", None), Ok(Namespace::User));
    assert_eq!(choose_namespace("acme", "alice", Some(true)), Ok(Namespace::Organization));
    assert_eq!(choose_namespace("acme", "alice", Some(false)), Err(RepoError::NotOrgMember));
    assert_eq!(choose_namespace("nobody", "alice", None), Err(RepoError::NamespaceNotFound));
}

#[test]
fn imports_need_a_plain_http_url() {
    let ok = check_import(true, "proj", false, true, "", "https://example.com/a/b.git", None, None, None);
    assert_eq!(ok.unwrap(), "https://example.com/a/b.git");
    assert_eq!(check_import(false, "proj", false, true, "", "https://example.com", None, None, None), Err(RepoError::ImportDisabled));
    assert_eq!(check_import(true, "Proj", false, true, "", "https://example.com", None, None, None), Err(RepoError::MalformedName));
    assert_eq!(check_import(true, "proj", false, true, "", "not a url", None, None, None), Err(RepoError::UnparsableUrl));
    assert_eq!(check_import(true, "proj", false, true, "", "ftp://example.com/x", None, None, None), Err(RepoError::UnsupportedScheme));
    assert_eq!(check_import(true, "proj", false, true, "", "https://u:p@example.com/x", None, None, None), Err(RepoError::CredentialsInUrl));
    assert_eq!(check_import(true, "proj", false, true, "", "https://example.com/x", Some(true), None, None), Err(RepoError::MirrorNotImplemented));
    assert_eq!(check_import(true, "proj", false, true, "", "https://example.com/x", None, Some("u"), None), Err(RepoError::PartialCredentials));
    assert!(check_import(true, "proj", false, true, "", "https://example.com/x", None, Some("u"), Some("p")).is_ok());
    assert_eq!(check_import(true, "proj", false, true, "", "https://example.com/x", Some(false), None, None).as_deref(), Ok("https://example.com/x"));
    assert_eq!(check_import(true, "proj", false, true, "", "HTTP://EXAMPLE.com", None, None, None).unwrap(), "http://example.com/");
}

#[test]
fn readme_and_url_texts() {
    assert_eq!(readme("demo", "A demo"), "# demo\n\nA demo\n");
    assert_eq!(repo_url("https://git.example", "alice", "demo"), "https://git.example/alice/demo");
    assert_eq!(repo_url("", "alice", "demo"), "/alice/demo");
}

#[test]
fn forks_cannot_go_into_the_owning_namespace() {
    assert_eq!(fork_target(Some(1), 1, 1), Err(RepoError::ForkIntoOwnNamespace));
    assert_eq!(fork_target(Some(1), 2, 2), Ok(false));
    assert_eq!(fork_target(Some(1), 3, 2), Ok(true));
    assert_eq!(fork_target(None, 3, 3), Ok(false));
    assert_eq!(check_fork(Some(1), 1, 1, true), Err(RepoError::ForkIntoOwnNamespace));
    assert_eq!(check_fork(Some(1), 3, 2, true), Err(RepoError::ForkNameInUse));
    assert_eq!(check_fork(Some(1), 3, 2, false), Ok(true));
    assert_eq!(RepoError::ForkNameInUse.message(), "Repository name already in use in this namespace");
    assert_eq!(name_in_use_query(true), "select exists(select 1 from repositories where owner_org = $1 and lower(name) = lower($2) limit 1)");
    assert!(name_in_use_query(false).contains("where owner_user = $1"));
}

#[test]
fn validation_reports_per_field_messages() {
    let r = validate("ok", false, true, false, None);
    assert!(r.valid);
    assert_eq!(r.name, None);
    let r = validate("ok", false, true, true, Some(&"x".repeat(257)));
    assert!(!r.valid);
    assert_eq!(r.name.as_deref(), Some("Repository name already in use for this namespace"));
    assert_eq!(r.description.as_deref(), Some("Description may only be up to 256 characters long"));
    let r = validate("", false, true, true, None);
    assert_eq!(
        r.name.as_deref(),
        Some("Repository name must be between 1 and 32 characters long and may only contain a-z, 0-9, _ or -")
    );
}

#[test]
fn repo_error_messages() {
    assert_eq!(RepoError::ReservedName.message(), "Repository name is a reserved identifier");
    assert_eq!(RepoError::ImportDisabled.message(), "Importing is disabled on this instance");
}

#[test]
fn org_roles_and_defaults() {
    assert_eq!(default_role(), OrgRole::Member);
    assert!(has_permission(OrgRole::Owner, OrgRole::Admin));
    assert!(has_permission(OrgRole::Admin, OrgRole::Admin));
    assert!(!has_permission(OrgRole::Member, OrgRole::Admin));
    assert!(!has_permission(OrgRole::Admin, OrgRole::Owner));
}

#[test]
fn new_organizations_are_checked_in_order() {
    assert_eq!(check_new_org("acme", false, false, ""), Ok(OrgRole::Owner));
    assert_eq!(check_new_org("ACME", true, true, ""), Err(OrgError::MalformedName));
    assert_eq!(check_new_org("acme", true, true, ""), Err(OrgError::ReservedName));
    assert_eq!(check_new_org("acme", false, true, ""), Err(OrgError::NameTaken));
    assert_eq!(check_new_org("acme", false, false, &"d".repeat(257)), Err(OrgError::DescriptionTooLong));
}

#[test]
fn member_management_protects_owners() {
    assert_eq!(check_add_member(Some(OrgRole::Member), Some(None)), Err(OrgError::CannotManageMembers));
    assert_eq!(check_add_member(None, Some(None)), Err(OrgError::CannotManageMembers));
    assert_eq!(check_add_member(Some(OrgRole::Admin), None), Err(OrgError::UserNotFound));
    assert_eq!(check_add_member(Some(OrgRole::Admin), Some(Some(OrgRole::Owner))), Err(OrgError::OwnerRoleProtected));
    assert_eq!(check_add_member(Some(OrgRole::Owner), Some(Some(OrgRole::Owner))), Ok(()));
    assert_eq!(check_add_member(Some(OrgRole::Admin), Some(Some(OrgRole::Member))), Ok(()));
}

#[test]
fn the_last_owner_cannot_be_removed() {
    assert_eq!(check_remove_member(Some(OrgRole::Owner), Some((true, Some(OrgRole::Owner))), 1), Err(OrgError::LastOwner));
    assert_eq!(check_remove_member(Some(OrgRole::Owner), Some((false, Some(OrgRole::Owner))), 2), Ok(()));
    assert_eq!(check_remove_member(Some(OrgRole::Member), Some((false, Some(OrgRole::Member))), 1), Err(OrgError::CannotRemoveMembers));
    assert_eq!(check_remove_member(Some(OrgRole::Member), Some((true, Some(OrgRole::Member))), 1), Ok(()));
    assert_eq!(check_remove_member(Some(OrgRole::Admin), None, 1), Err(OrgError::UserNotFound));
}

#[test]
fn deleting_and_listing_organizations() {
    assert_eq!(check_delete_org(Some(OrgRole::Admin)), Ok(()));
    assert_eq!(check_delete_org(Some(OrgRole::Member)), Err(OrgError::CannotDelete));
    assert!(org_repo_visible(None, RepoVisibility::Public));
    assert!(!org_repo_visible(None, RepoVisibility::Internal));
    assert!(org_repo_visible(Some((false, false)), RepoVisibility::Internal));
    assert!(!org_repo_visible(Some((false, false)), RepoVisibility::Private));
    assert!(org_repo_visible(Some((false, true)), RepoVisibility::Private));
    assert!(org_repo_visible(Some((true, false)), RepoVisibility::Private));
}

#[test]
fn the_check_write_checks_archive_then_permission() {
    assert_eq!(check_write(true, true), Err(AccessError::Archived));
    assert_eq!(check_write(false, false), Err(AccessError::InsufficientPermissions));
    assert_eq!(check_write(false, true), Ok(()));
}

#[test]
fn permissions_of_viewers() {
    let view_only = RepoPermissions { view: true, push: false, manage_issues: false, admin: false };
    let all = RepoPermissions { view: true, push: true, manage_issues: true, admin: true };
    let granted = RepoPermissions { view: true, push: true, manage_issues: false, admin: false };
    assert_eq!(repo_permissions(None, Some(granted)), view_only);
    assert_eq!(repo_permissions(Some((true, false)), None), all);
    assert_eq!(repo_permissions(Some((false, true)), None), all);
    assert_eq!(repo_permissions(Some((false, false)), Some(granted)), granted);
    assert_eq!(repo_permissions(Some((false, false)), None), view_only);
}

#[test]
fn collaborators_rules() {
    assert_eq!(check_upsert_collaborator(false, true, Some(2), Some(1), false, RepoVisibility::Public), Ok(()));
    assert_eq!(check_upsert_collaborator(false, true, Some(1), Some(1), false, RepoVisibility::Public), Err(AccessError::OwnerPrivileges));
    assert_eq!(check_upsert_collaborator(false, true, Some(2), Some(1), true, RepoVisibility::Public), Err(AccessError::ViewerOnNonPrivate));
    assert_eq!(check_upsert_collaborator(false, true, Some(2), Some(1), true, RepoVisibility::Private), Ok(()));
    assert_eq!(check_upsert_collaborator(false, true, None, Some(1), false, RepoVisibility::Private), Err(AccessError::UserNotFound));
    assert_eq!(check_upsert_collaborator(true, true, Some(2), Some(1), false, RepoVisibility::Private), Err(AccessError::Archived));
    assert_eq!(check_remove_collaborator(false, true, Some(2), Some(1), 0), Err(AccessError::CollaboratorNotFound));
    assert_eq!(check_remove_collaborator(false, true, Some(1), Some(1), 1), Err(AccessError::OwnerRemoval));
    assert_eq!(check_remove_collaborator(false, false, Some(2), Some(1), 1), Err(AccessError::InsufficientPermissions));
    assert_eq!(check_remove_collaborator(false, true, Some(2), Some(1), 1), Ok(()));
    assert_eq!(privilege_event(true), "privilege.changed");
    assert_eq!(privilege_event(false), "privilege.granted");
}

#[test]
fn stars_toggle_and_conflict() {
    assert_eq!(star(false), Ok(StarAction::Add));
    assert_eq!(star(true), Err(AccessError::AlreadyStarred));
    assert_eq!(unstar(true), Ok(StarAction::Remove));
    assert_eq!(unstar(false), Err(AccessError::NotStarred));
    let once = toggle_star(false);
    assert_eq!(once, StarAction::Add);
    assert_eq!(toggle_star(once == StarAction::Add), StarAction::Remove);
    assert_eq!(star_action_name(StarAction::Add), "add");
    assert_eq!(star_action_name(StarAction::Remove), "remove");
    assert_eq!(fork_visibility_filter(true), "visibility != 'private'");
    assert_eq!(fork_visibility_filter(false), "visibility = 'public'");
    assert_eq!(
        fork_count_query(false),
        "select count(*) from repositories where forked_from = $1 and disabled = false and visibility = 'public'"
    );
    assert!(fork_count_query(true).ends_with("and disabled = false and visibility != 'private'"));
    assert_eq!(star_event(StarAction::Add), "star.added");
    assert_eq!(star_event(StarAction::Remove), "star.removed");
}

#[test]
fn locating_repositories() {
    assert_eq!(repo_owner(Some(1), Some(2)), Some(1));
    assert_eq!(repo_owner(None, Some(2)), Some(2));
    assert_eq!(repo_owner(None, None), None);
    assert_eq!(namespace_owner(None, Some(5)), Some(5));
    assert_eq!(repo_fs_path("/srv/repos", "alice", "demo"), "/srv/repos/alice/demo");
    assert!(repo_visible(true, true));
    assert!(!repo_visible(true, false));
    assert!(!repo_visible(false, true));
    assert_eq!(import_credentials(Some("u".to_string()), Some("p".to_string())), Some(("u".to_string(), "p".to_string())));
    assert_eq!(import_credentials(Some("u".to_string()), None), None);
    assert_eq!(import_max_retries(), 3);
    assert_eq!(archive_event(true), "repo.archived");
    assert_eq!(archive_event(false), "repo.unarchived");
}
