use gitarena::contributions::{uuid_lower_bound, uuid_upper_bound};
use gitarena::discussion::{toggle_issue_reaction, ReactionAction};
use gitarena::explore::Order;
use gitarena::labels::conflicting_scope;
use gitarena::contributions::date_range;
use gitarena::issues::{plan_issue_update, IssueChange, UpdateIssueRequest};
use gitarena::listing::directory_listing;
use gitarena::number::{parse_i32, parse_u32, push_decimal};
use gitarena::readme::{find_readme, readme_entry, readme_overview};
use gitarena::smart_http::check_push;
use gitarena::tree::{EntryKind, TreeEntry};
use gitarena::walk::{FileWalk, WalkStep};
use gitarena::zip_time::unix_secs_to_zip_datetime;

fn file(name: &[u8]) -> TreeEntry {
    TreeEntry { kind: EntryKind::Blob, name: name.to_vec(), oid: vec![1, 2, 3] }
}

#[test]
fn readme_is_the_first_name_starting_with_readme() {
    let entries = vec![file(b"src"), file(b"ReadMe.md"), file(b"README")];
    assert_eq!(find_readme(&entries), Some(1));
    assert_eq!(readme_entry(&entries), Some((1, "ReadMe.md".to_string())));
    assert_eq!(find_readme(&[file(b"read.me"), file(b"notes")]), None);
    assert_eq!(readme_entry(&[file(b"docs")]), None);
}

#[test]
fn readme_names_that_are_not_utf8() {
    let entries = vec![file(b"README\xff")];
    assert_eq!(readme_entry(&entries), Some((0, "Invalid file name".to_string())));
    assert_eq!(readme_overview(true, &entries), (false, None));
    assert_eq!(readme_overview(true, &[file(b"readme.txt")]), (false, Some("readme.txt".to_string())));
    assert_eq!(readme_overview(false, &[file(b"readme.txt")]), (true, None));
}

#[test]
fn zip_times_use_the_msdos_format() {
    // 2024-01-02 03:04:05 UTC
    assert_eq!(unix_secs_to_zip_datetime(1_704_164_645), (22562, 6274));
    // 1980-01-01 00:00:00 UTC, the earliest time
    assert_eq!(unix_secs_to_zip_datetime(315_532_800), (0x21, 0));
    // before 1980
    assert_eq!(unix_secs_to_zip_datetime(0), (0x21, 0));
    // an odd second is rounded down to two seconds
    assert_eq!(unix_secs_to_zip_datetime(315_532_800 + 59), (0x21, 29));
    // beyond what chrono represents, read as 1970
    assert_eq!(unix_secs_to_zip_datetime(i64::MAX), (0x21, 0));
}

#[test]
fn written_numbers_read_back() {
    for n in [0u32, 7, 10, 99, 4_294_967_295] {
        let mut s = String::new();
        push_decimal(&mut s, n as u64);
        let chars: Vec<char> = s.chars().collect();
        assert_eq!(parse_u32(&chars), Some(n));
    }
    let mut s = String::new();
    push_decimal(&mut s, 2_147_483_647);
    let chars: Vec<char> = s.chars().collect();
    assert_eq!(parse_i32(&chars), Some(i32::MAX));
}

#[test]
fn calendar_years_have_their_days() {
    let (start, end) = date_range(Some(2024), 0);
    assert_eq!(end - start, 366);
    let (start, end) = date_range(Some(2023), 0);
    assert_eq!(end - start, 365);
    let (start, end) = date_range(Some(1900), 0);
    assert_eq!(end - start, 365);
    let (start, end) = date_range(Some(2000), 0);
    assert_eq!(end - start, 366);
    let (start, end) = date_range(None, 800_000);
    assert_eq!(end - start, 366);
}

#[test]
fn non_managers_never_change_manager_fields() {
    let req = UpdateIssueRequest {
        title: None,
        body: Some("b".to_string()),
        status: None,
        priority: Some("high".to_string()),
        labels_add: None,
        labels_remove: None,
        confidential: Some(true),
        locked: Some(true),
        assignees: Some(vec![1]),
        milestone_id: Some(None),
    };
    let plan = plan_issue_update(false, false, true, &[], &req);
    assert_eq!(plan.changes, vec![IssueChange::Body]);
    let plan = plan_issue_update(false, true, false, &[], &req);
    assert_eq!(
        plan.changes,
        vec![IssueChange::Body, IssueChange::Confidential, IssueChange::Locked, IssueChange::Assignees, IssueChange::Priority, IssueChange::Milestone]
    );
}

#[test]
fn directory_pages_keep_the_first_thousand_entries() {
    let entries: Vec<TreeEntry> = (0..1200).rev().map(|i| file(format!("n{i:05}").as_bytes())).collect();
    let page = directory_listing(&entries, "d");
    assert_eq!(page.len(), 1000);
    assert_eq!(page[0].name, "n00200");
    assert_eq!(page[999].name, "n01199");
    for pair in page.windows(2) {
        assert!(pair[0].name < pair[1].name);
    }
}

#[test]
fn walks_never_list_more_than_their_budget() {
    let entries: Vec<TreeEntry> = (0..50).map(|i| file(format!("f{i:02}").as_bytes())).collect();
    let mut walk = FileWalk::new(entries, 20);
    let mut steps = 0;
    loop {
        match walk.step() {
            WalkStep::Done => break,
            WalkStep::Directory(_) => walk.descend(Vec::new()),
            _ => {}
        }
        steps += 1;
        assert!(steps < 100);
    }
    let (files, truncated) = walk.finish();
    assert_eq!(files.len(), 20);
    assert!(truncated);
}

#[test]
fn hidden_repositories_look_missing() {
    assert_eq!(check_push(true, false, true, false), check_push(false, false, true, false));
    assert_eq!(check_push(true, false, false, true), check_push(false, true, true, false));
}

#[test]
fn sort_texts_parse_back_to_themselves() {
    for s in ["stars_desc", "name_asc", "id_desc"] {
        let (m, o) = Order::parse(s).unwrap();
        assert!(!m.contains('_'));
        assert_eq!(format!("{}_{}", m, o.as_str()), s);
    }
    assert!(Order::parse("a_b_desc").is_none());
}

#[test]
fn label_conflicts_do_not_depend_on_order() {
    let labels: Vec<String> = vec!["a::1".into(), "b::2".into(), "a::3".into()];
    let reordered: Vec<String> = vec!["a::3".into(), "b::2".into(), "a::1".into()];
    assert_eq!(conflicting_scope(&labels).as_deref(), Some("a"));
    assert_eq!(conflicting_scope(&reordered).as_deref(), Some("a"));
    let fine: Vec<String> = vec!["x::1".into(), "y::1".into(), "plain".into()];
    let fine_reordered: Vec<String> = vec!["plain".into(), "y::1".into(), "x::1".into()];
    assert_eq!(conflicting_scope(&fine), None);
    assert_eq!(conflicting_scope(&fine_reordered), None);
}

#[test]
fn toggling_a_reaction_twice_restores_it() {
    let mut reacted = false;
    for _ in 0..2 {
        match toggle_issue_reaction("🚀", reacted) {
            Ok(ReactionAction::Add) => reacted = true,
            Ok(ReactionAction::Remove) => reacted = false,
            Err(e) => panic!("{e:?}"),
        }
    }
    assert!(!reacted);
}

#[test]
fn bounds_of_later_milliseconds_come_later() {
    for t in [0u64, 999, 1_700_000_000_123] {
        assert!(uuid_upper_bound(t) < uuid_lower_bound(t + 1));
        assert!(uuid_lower_bound(t) < uuid_upper_bound(t));
    }
}
