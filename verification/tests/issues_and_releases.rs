use gitarena::discussion::{comment_on_issue_query, reactions_query, ReactionTarget, 
    check_add_comment, check_change_comment, is_allowed_emoji, toggle_comment_reaction, toggle_issue_reaction, DiscussionError,
    ReactionAction,
};
use gitarena::issues::{
    check_delete_issue, check_new_issue, counts_as_open, issue_visible, new_issue_priority, plan_issue_update, show_confidential,
    IssueChange, IssueError, IssueStatus, UpdateIssueRequest,
};
use gitarena::milestones::{check_delete_milestone, check_new_milestone, merge_milestone_update, MilestoneError, MilestoneFields, UpdateMilestoneRequest};
use gitarena::releases::{
    asset_hash, check_confirm_asset, check_create_asset, check_delete_asset, check_download_asset, check_release_change, is_latest,
    pre_release_of, release_changes, tag_message, tag_ref, ReleaseChange, ReleaseError,
};
use gitarena::tags::{sort_tags, tag_date_of, tag_name, tag_reference_name, TagInfo};

fn strings(v: &[&str]) -> Vec<String> {
    v.iter().map(|s| s.to_string()).collect()
}

fn empty_update() -> UpdateIssueRequest {
    UpdateIssueRequest {
        title: None,
        body: None,
        status: None,
        priority: None,
        labels_add: None,
        labels_remove: None,
        confidential: None,
        locked: None,
        assignees: None,
        milestone_id: None,
    }
}

#[test]
fn confidential_issues_are_for_the_owner() {
    assert!(show_confidential(Some(7), Some(7)));
    assert!(!show_confidential(Some(7), Some(8)));
    assert!(!show_confidential(None, None));
    assert!(issue_visible(false, None, Some(1)));
    assert!(!issue_visible(true, None, Some(1)));
    assert!(issue_visible(true, Some(1), Some(1)));
}

#[test]
fn new_issues_need_a_title_and_distinct_scopes() {
    assert!(matches!(check_new_issue(true, "t", None), Err(IssueError::Archived)));
    assert!(matches!(check_new_issue(false, "  \n", None), Err(IssueError::EmptyTitle)));
    let labels = strings(&["type::bug", "type::docs"]);
    match check_new_issue(false, "t", Some(&labels)) {
        Err(IssueError::ScopeConflict(s)) => assert_eq!(s, "type"),
        _ => panic!("expected a scope conflict"),
    }
    assert!(check_new_issue(false, "t", Some(&[])).is_ok());
    assert_eq!(new_issue_priority(None), "none");
    assert_eq!(new_issue_priority(Some("high")), "high");
    assert!(matches!(check_delete_issue(false, false), Err(IssueError::InsufficientPermissions)));
    assert!(check_delete_issue(false, true).is_ok());
}

#[test]
fn issue_status_groups() {
    assert!(counts_as_open(IssueStatus::Open));
    assert!(counts_as_open(IssueStatus::InProgress));
    assert!(!counts_as_open(IssueStatus::Completed));
    assert!(!counts_as_open(IssueStatus::NotPlanned));
}

#[test]
fn issue_updates_are_planned_in_order() {
    let mut req = empty_update();
    req.title = Some("New".to_string());
    req.status = Some(IssueStatus::Completed);
    req.labels_add = Some(strings(&["type::bug"]));
    req.locked = Some(true);
    req.priority = Some("low".to_string());
    let plan = plan_issue_update(false, true, false, &strings(&["status::open"]), &req);
    assert!(plan.refusal.is_none());
    assert_eq!(
        plan.changes,
        vec![IssueChange::Title, IssueChange::Status, IssueChange::Labels, IssueChange::Locked, IssueChange::Priority]
    );
    let plan = plan_issue_update(false, false, true, &strings(&["status::open"]), &req);
    assert_eq!(plan.changes, vec![IssueChange::Title, IssueChange::Status, IssueChange::Labels]);
}

#[test]
fn issue_updates_are_refused_with_reasons() {
    let req = empty_update();
    assert!(matches!(plan_issue_update(true, true, true, &[], &req).refusal, Some(IssueError::Archived)));
    assert!(matches!(plan_issue_update(false, false, false, &[], &req).refusal, Some(IssueError::InsufficientPermissions)));
    let mut blank = empty_update();
    blank.title = Some("   ".to_string());
    let plan = plan_issue_update(false, true, true, &[], &blank);
    assert!(matches!(plan.refusal, Some(IssueError::EmptyTitle)));
    assert!(plan.changes.is_empty());
    let mut relabel = empty_update();
    relabel.body = Some("b".to_string());
    relabel.labels_add = Some(strings(&["type::feature"]));
    let plan = plan_issue_update(false, true, true, &strings(&["type::bug"]), &relabel);
    assert_eq!(plan.changes, vec![IssueChange::Body]);
    match plan.refusal {
        Some(IssueError::ScopeConflict(s)) => assert_eq!(s, "type"),
        _ => panic!("expected a scope conflict"),
    }
    relabel.labels_remove = Some(strings(&["type::bug"]));
    let plan = plan_issue_update(false, true, true, &strings(&["type::bug"]), &relabel);
    assert!(plan.refusal.is_none());
    assert_eq!(plan.changes, vec![IssueChange::Body, IssueChange::Labels]);
}

#[test]
fn milestones_are_created_with_trimmed_titles() {
    assert_eq!(check_new_milestone(false, true, "  v1 ").unwrap(), "v1");
    assert!(matches!(check_new_milestone(false, true, "  "), Err(MilestoneError::EmptyTitle)));
    assert!(matches!(check_new_milestone(true, true, "v1"), Err(MilestoneError::Archived)));
    assert!(matches!(check_new_milestone(false, false, "v1"), Err(MilestoneError::InsufficientPermissions)));
}

#[test]
fn milestone_updates_merge_with_the_current_milestone() {
    let current = || MilestoneFields { title: "v1".to_string(), description: None, due_date: Some(10), closed: false };
    let req = UpdateMilestoneRequest { title: None, description: None, due_date: None, closed: Some(true) };
    let m = merge_milestone_update(false, true, Some(current()), req).unwrap();
    assert_eq!(m.title, "v1");
    assert_eq!(m.description.as_deref(), Some(""));
    assert_eq!(m.due_date, Some(10));
    assert!(m.closed);
    let req = UpdateMilestoneRequest { title: Some(" v2 ".to_string()), description: Some(" d ".to_string()), due_date: Some(Some(20)), closed: None };
    let m = merge_milestone_update(false, true, Some(current()), req).unwrap();
    assert_eq!(m.title, "v2");
    assert_eq!(m.description.as_deref(), Some("d"));
    assert_eq!(m.due_date, Some(20));
    assert!(!m.closed);
    let req = UpdateMilestoneRequest { title: Some(" ".to_string()), description: None, due_date: None, closed: None };
    assert!(matches!(merge_milestone_update(false, true, Some(current()), req), Err(MilestoneError::EmptyTitle)));
    let req = UpdateMilestoneRequest { title: None, description: None, due_date: Some(None), closed: None };
    assert_eq!(merge_milestone_update(false, true, Some(current()), req).unwrap().due_date, None);
    let req = UpdateMilestoneRequest { title: None, description: None, due_date: None, closed: None };
    assert!(matches!(merge_milestone_update(false, true, None, req), Err(MilestoneError::NotFound)));
    assert_eq!(check_delete_milestone(false, true, false), Err(MilestoneError::NotFound));
    assert_eq!(check_delete_milestone(false, true, true), Ok(()));
}

#[test]
fn comments_and_reactions() {
    assert_eq!(check_add_comment(false, true), Err(DiscussionError::Locked));
    assert_eq!(check_add_comment(true, false), Err(DiscussionError::Archived));
    assert_eq!(check_add_comment(false, false), Ok(()));
    assert_eq!(check_change_comment(false, false, false), Err(DiscussionError::InsufficientPermissions));
    assert_eq!(check_change_comment(false, true, false), Ok(()));
    assert_eq!(check_change_comment(false, false, true), Ok(()));
    assert!(is_allowed_emoji("👍"));
    assert!(is_allowed_emoji("❤️"));
    assert!(is_allowed_emoji("🕳️👨‍🦯"));
    assert!(!is_allowed_emoji("❤"));
    assert!(!is_allowed_emoji("smile"));
    assert_eq!(toggle_issue_reaction("🚀", false), Ok(ReactionAction::Add));
    assert_eq!(toggle_issue_reaction("🚀", true), Ok(ReactionAction::Remove));
    assert_eq!(toggle_issue_reaction("x", true), Err(DiscussionError::EmojiNotAllowed));
    assert_eq!(toggle_comment_reaction("🔥", false, false), Err(DiscussionError::CommentNotFound));
    assert_eq!(toggle_comment_reaction("x", false, false), Err(DiscussionError::EmojiNotAllowed));
}

#[test]
fn releases_rules() {
    assert_eq!(check_release_change(true, true, None), Err(ReleaseError::Archived));
    assert_eq!(check_release_change(false, false, None), Err(ReleaseError::InsufficientPermissions));
    assert_eq!(check_release_change(false, true, Some(false)), Err(ReleaseError::ReleaseNotFound));
    assert_eq!(check_release_change(false, true, Some(true)), Ok(()));
    assert_eq!(tag_ref("v1.0"), "refs/tags/v1.0");
    assert_eq!(tag_message("Title", None), "Title");
    assert_eq!(tag_message("Title", Some("Desc")), "Desc");
    assert!(!pre_release_of(None));
    assert!(pre_release_of(Some(true)));
    assert!(is_latest(Some(4), 4));
    assert!(!is_latest(None, 4));
    assert_eq!(release_changes(true, false, true), vec![ReleaseChange::Title, ReleaseChange::PreRelease]);
    assert_eq!(check_create_asset(false, false, true, true), Err(ReleaseError::StorageUnavailable));
    assert_eq!(check_create_asset(false, true, true, false), Err(ReleaseError::ReleaseNotFound));
    assert_eq!(check_confirm_asset(true, true, true, true, false), Err(ReleaseError::NotUploaded));
    assert_eq!(check_confirm_asset(true, true, true, false, true), Err(ReleaseError::AssetNotFound));
    assert_eq!(check_confirm_asset(true, true, false, true, true), Err(ReleaseError::AssetNotFound));
    assert_eq!(check_confirm_asset(true, true, true, true, true), Ok(()));
    assert_eq!(check_download_asset(true, true, false), Err(ReleaseError::AssetNotFound));
    assert_eq!(check_download_asset(true, true, true), Ok(()));
    assert_eq!(check_delete_asset(false, true, true, true, false), Err(ReleaseError::AssetNotFound));
}

#[test]
fn asset_hash_is_hex_sha256() {
    assert_eq!(asset_hash(b""), "e3b0c44298fc1c149afbf4c8996fb92427ae41e4649b934ca495991b7852b855");
    assert_eq!(asset_hash(b"abc"), "ba7816bf8f01cfea414140de5dae2223b00361a396177a9cb410ff61f20015ad");
}

#[test]
fn tag_names_come_from_tag_references() {
    assert_eq!(tag_name(b"refs/tags/v1.0").as_deref(), Some("v1.0"));
    assert_eq!(tag_name(b"refs/heads/main"), None);
    assert_eq!(tag_name(b"refs/tag"), None);
    assert_eq!(tag_name(b"refs/tags/\xffx").as_deref(), Some("\u{fffd}x"));
    assert_eq!(tag_reference_name("v2"), "refs/tags/v2");
    assert_eq!(tag_name(tag_reference_name("release/1.2").as_bytes()).as_deref(), Some("release/1.2"));
}

fn tag(name: &str, ts: i64) -> TagInfo {
    TagInfo {
        name: name.to_string(),
        commit: String::new(),
        commit_message: String::new(),
        author_name: String::new(),
        author_email: String::new(),
        timestamp: ts,
        annotated: false,
        message: None,
    }
}

#[test]
fn tags_are_listed_newest_first() {
    let sorted = sort_tags(vec![tag("a", 10), tag("b", 30), tag("c", 20), tag("d", 30)]);
    let names: Vec<&str> = sorted.iter().map(|t| t.name.as_str()).collect();
    assert_eq!(names, vec!["b", "d", "c", "a"]);
    assert_eq!(tag_date_of(1_700_000_000), 1_700_000_000);
    assert_eq!(tag_date_of(-86_400), -86_400);
    assert_eq!(tag_date_of(i64::MAX), 0);
}

#[test]
fn reactions_are_read_by_target_column() {
    assert_eq!(
        reactions_query(ReactionTarget::Issue),
        "select emoji, count(*) as count, ($2::uuid is not null and bool_or(user_id = $2)) as reacted from reactions where issue_id = $1 group by emoji order by emoji"
    );
    assert!(reactions_query(ReactionTarget::Comment).contains("where comment_id = $1 group by emoji"));
    assert!(comment_on_issue_query().ends_with("where c.id = $1 and i.repo_id = $2 and i.\"index\" = $3)"));
}
