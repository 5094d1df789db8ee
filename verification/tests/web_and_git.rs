use gitarena::admin::{
    audit_log_query, database_status, default_limit as admin_default_limit, email_status, ssh_host, ssh_port, ssh_status, used_space,
    users_query, workers_status, AdminAuditLogParams, AdminError, ComponentStatus, ConnectOutcome, EventClass,
};
use gitarena::content::{blob_content_type, file_content, MAX_TEXT_SIZE};
use gitarena::contributions::{contribution_days, contribution_window, date_range, day_millis, event_millis, uuid_lower_bound, uuid_upper_bound};
use gitarena::events::{default_limit, EventListParams};
use gitarena::explore::{query_is_readable, explore_query, ExploreOptions, Order};
use gitarena::feeds::{audience, contribution_privacy_clause, contribution_type_list, feed_privacy_clause, may_read_org_audit_log, Audience};
use gitarena::history::{blame_lines, branch_name, default_limit as commits_default_limit, BlameError, CommitsQuery, SortOrder, MAX_LIMIT};
use gitarena::listing::directory_listing;
use gitarena::org::OrgRole;
use gitarena::proxy::{decode_proxy_target, has_no_body, is_accepted_image_type, is_private_ip, upstream_header_action, HeaderAction, IpAddress, ProxyError};
use gitarena::smart_http::{
    check_fetch, check_push, check_receive_advertisement, check_receive_pack_headers, check_upload_pack_headers, git_service, speaks_v2,
    GitHttpError, GitService,
};
use gitarena::tree::{join_path, lookup_step, sort_entries, EntryKind, LookupError, LookupStep, TreeEntry, Want};
use gitarena::walk::{FileWalk, WalkStep};
use qstring::QString;

#[test]
fn event_list_params_are_clamped() {
    assert_eq!(default_limit(), 20);
    let p = EventListParams { offset: -5, limit: 1000, type_filter: Some("x".to_string()) }.sanitize();
    assert_eq!(p.offset, 0);
    assert_eq!(p.limit, 100);
    assert_eq!(p.type_filter.as_deref(), Some("x"));
    let p = EventListParams { offset: 7, limit: 0, type_filter: None }.sanitize();
    assert_eq!((p.offset, p.limit), (7, 1));
    let twice = EventListParams { offset: -1, limit: 500, type_filter: None }.sanitize().sanitize();
    assert_eq!((twice.offset, twice.limit), (0, 100));
}

#[test]
fn admin_audit_log_queries() {
    assert_eq!(admin_default_limit(), 20);
    let params = |class: Option<&str>| AdminAuditLogParams { offset: 3, limit: 0, type_filter: None, class: class.map(|c| c.to_string()) };
    assert!(matches!(audit_log_query(false, params(None)), Err(AdminError::Forbidden)));
    assert!(matches!(audit_log_query(true, params(Some("weird"))), Err(AdminError::InvalidClass)));
    let q = audit_log_query(true, params(Some("security"))).ok().unwrap();
    assert_eq!(q.class, Some(EventClass::Security));
    assert_eq!((q.offset, q.limit), (3, 1));
    assert_eq!(audit_log_query(true, params(None)).ok().unwrap().class, None);
    let sql = q.to_sql();
    assert!(sql.starts_with("select e.id, e.trace_id,"));
    assert!(sql.ends_with("where true and e.class = $1 order by e.id desc limit $2 offset $3"));
    assert!(audit_log_query(true, params(None)).ok().unwrap().to_sql().ends_with("where true order by e.id desc limit $1 offset $2"));
    let both = audit_log_query(true, AdminAuditLogParams { offset: 0, limit: 5, type_filter: Some("repo.created".into()), class: Some("activity".into()) }).ok().unwrap();
    assert!(both.to_sql().ends_with(" and e.class = $1 and e.type = $2 order by e.id desc limit $3 offset $4"));
}

#[test]
fn admin_user_listing_queries() {
    assert!(matches!(users_query(false, None, None), Err(AdminError::Forbidden)));
    assert!(matches!(users_query(true, Some("random"), None), Err(AdminError::InvalidSort)));
    assert!(matches!(users_query(true, Some("newest"), Some("ten")), Err(AdminError::InvalidLimit)));
    let q = users_query(true, Some("newest"), Some("10")).ok().unwrap();
    assert!(q.descending);
    assert_eq!(q.limit, 10);
    let q = users_query(true, None, None).ok().unwrap();
    assert!(!q.descending);
    assert_eq!(q.limit, i32::MAX);
}

#[test]
fn health_probes_are_judged() {
    assert_eq!(ssh_host("0.0.0.0:8080"), "0.0.0.0");
    assert_eq!(ssh_host("[::1]:22"), "[::1]");
    assert_eq!(ssh_host("localhost"), "localhost");
    assert_eq!(ssh_port(22), Some(22));
    assert_eq!(ssh_port(70000), None);
    assert_eq!(ssh_port(-1), None);
    assert!(matches!(database_status(Some(1)), ComponentStatus::Healthy));
    match database_status(Some(3)) {
        ComponentStatus::Degraded(m) => assert_eq!(m, "database returned 3 rows but expected 1"),
        _ => panic!("expected degraded"),
    }
    assert!(matches!(database_status(None), ComponentStatus::Unhealthy));
    assert!(matches!(ssh_status(false, false, ConnectOutcome::TimedOut).1, ComponentStatus::Disabled));
    assert!(matches!(ssh_status(true, true, ConnectOutcome::TimedOut).1, ComponentStatus::Unhealthy));
    let (lat, st) = ssh_status(true, false, ConnectOutcome::Connected(5));
    assert_eq!(lat, Some(5));
    assert!(matches!(st, ComponentStatus::Healthy));
    match ssh_status(true, false, ConnectOutcome::TimedOut) {
        (None, ComponentStatus::Degraded(m)) => assert_eq!(m, "5sec time out reached trying to connect to ssh"),
        _ => panic!("expected time out"),
    }
    assert!(matches!(email_status(None).1, ComponentStatus::Disabled));
    assert!(matches!(email_status(Some((4, Err(())))), (None, ComponentStatus::Unhealthy)));
    assert!(matches!(email_status(Some((4, Ok(true)))), (Some(4), ComponentStatus::Healthy)));
    assert!(matches!(workers_status(false), ComponentStatus::Unhealthy));
    assert_eq!(used_space(100, 40), 60);
}

#[test]
fn order_parse_splits_at_first_underscore() {
    assert_eq!(Order::parse("stars_desc"), Some(("stars", Order::Descending)));
    assert_eq!(Order::parse("name_asc"), Some(("name", Order::Ascending)));
    assert_eq!(Order::parse("a_b_asc"), None);
    assert_eq!(Order::parse("stars"), None);
    assert_eq!(Order::parse("_asc"), Some(("", Order::Ascending)));
    assert_eq!(Order::Descending.as_str(), "desc");
}

#[test]
fn explore_options_read_the_query_string() {
    let q = QString::from("archived=0&fork=1&offset=40");
    let o = ExploreOptions::parse(&q, Some(false), "stars", Order::Descending);
    assert!(!o.archived);
    assert!(o.forked);
    assert!(o.mirrored);
    assert!(o.internal);
    assert!(!o.disabled);
    assert_eq!(o.offset, 40);
    assert_eq!(
        o.to_sql(),
        "where repositories.archived_at is null and repositories.disabled is false and repositories.visibility != 'private' group by repositories.id, u.username, o.name order by stars desc, id offset 40 limit 20"
    );
    let q = QString::from("offset=-3");
    assert_eq!(ExploreOptions::parse(&q, None, "x", Order::Ascending).offset, 0);
}

#[test]
fn explore_query_defaults_and_refusals() {
    assert_eq!(
        explore_query("", Some(true)).unwrap(),
        "where repositories.visibility != 'private' group by repositories.id, u.username, o.name order by stars desc, id offset 0 limit 20"
    );
    assert_eq!(
        explore_query("?sort=name_asc&mirror=0", None).unwrap(),
        "where repositories.mirrored_from is null and repositories.visibility != 'internal' and repositories.disabled is false and repositories.visibility != 'private' group by repositories.id, u.username, o.name order by lower(name) asc, id offset 0 limit 20"
    );
    assert!(explore_query("sort=stars", None).is_none());
    assert!(explore_query("sort=id_desc", Some(true)).unwrap().contains("order by id desc offset 0 limit 20"));
}

#[test]
fn uuid_bounds_span_a_millisecond() {
    let lo = uuid_lower_bound(1_700_000_000_123);
    let hi = uuid_upper_bound(1_700_000_000_123);
    let ms = 1_700_000_000_123u64.to_be_bytes();
    assert_eq!(&lo[0..6], &ms[2..8]);
    assert_eq!(&hi[0..6], &ms[2..8]);
    assert_eq!(&lo[6..], &[0x70, 0, 0x80, 0, 0, 0, 0, 0, 0, 0]);
    assert_eq!(&hi[6..], &[0x7f, 0xff, 0xbf, 0xff, 0xff, 0xff, 0xff, 0xff, 0xff, 0xff]);
    assert!(lo < hi);
    assert_eq!(event_millis(lo), 1_700_000_000_123);
    assert_eq!(event_millis([0u8; 16]), 0);
}

#[test]
fn ids_of_a_millisecond_lie_within_its_bounds() {
    let lo = uuid_lower_bound(1_700_000_000_123);
    let hi = uuid_upper_bound(1_700_000_000_123);
    for _ in 0..32 {
        let id = *uuid::Uuid::new_v7(uuid::Timestamp::from_unix(uuid::NoContext, 1_700_000_000, 123_000_000)).as_bytes();
        assert!(lo <= id && id <= hi);
    }
    let later = *uuid::Uuid::new_v7(uuid::Timestamp::from_unix(uuid::NoContext, 1_700_000_000, 124_000_000)).as_bytes();
    assert!(later > hi);
}

#[test]
fn contribution_windows() {
    assert_eq!(date_range(Some(2024), 0), (738886, 739252));
    assert_eq!(date_range(None, 739000), (738635, 739001));
    assert_eq!(day_millis(719163), 0);
    assert_eq!(day_millis(719164), 86_400_000);
    assert_eq!(day_millis(719000), 0);
    let w = contribution_window(Some(2024), 0);
    assert_eq!((w.start_day, w.end_day), (738886, 739252));
    assert_eq!(event_millis(w.lower), 1_704_067_200_000);
    assert_eq!(event_millis(w.upper), 1_735_689_600_000);
}

#[test]
fn contributions_are_counted_per_day() {
    let start = 738886;
    let event_on_second_day = uuid_lower_bound(1_704_067_200_000 + 86_400_000 + 5);
    let days = contribution_days(start, start + 3, &[(start, 2), (start + 2, 1), (start, 3)], &[event_on_second_day]);
    assert_eq!(days.len(), 3);
    assert_eq!(days[0].date, "2024-01-01");
    assert_eq!(days[0].count, 5);
    assert_eq!(days[1].date, "2024-01-02");
    assert_eq!(days[1].count, 1);
    assert_eq!(days[2].count, 1);
}

#[test]
fn feeds_hide_what_viewers_may_not_see() {
    let alice = [1u8; 16];
    let bob = [0x0fu8; 16];
    assert!(matches!(audience(Some(alice), alice), Audience::Own));
    assert!(matches!(audience(None, alice), Audience::Anonymous));
    let a = audience(Some(bob), alice);
    assert!(matches!(a, Audience::SignedIn(_)));
    assert_eq!(feed_privacy_clause(&Audience::Own), "");
    assert_eq!(feed_privacy_clause(&Audience::Anonymous), "and (r.visibility is null or r.visibility = 'public')");
    let clause = feed_privacy_clause(&a);
    assert!(clause.contains("r.owner_user = '0f0f0f0f-0f0f-0f0f-0f0f-0f0f0f0f0f0f'"));
    let c = contribution_privacy_clause(&a, "cc.repo_id");
    assert!(c.starts_with("and (r.visibility is null or r.visibility != 'private' or r.owner_user = '0f0f0f0f-0f0f-0f0f-0f0f-0f0f0f0f0f0f'"));
    assert!(c.contains("where p.repo_id = cc.repo_id and p.user_id"));
    assert_eq!(contribution_privacy_clause(&Audience::Anonymous, "x"), "and (r.visibility is null or r.visibility != 'private')");
    assert_eq!(contribution_type_list(), "'issue.opened', 'issue.closed', 'pr.opened', 'pr.merged', 'pr.reviewed'");
    assert!(may_read_org_audit_log(Some(OrgRole::Owner)));
    assert!(!may_read_org_audit_log(Some(OrgRole::Member)));
    assert!(!may_read_org_audit_log(None));
}

#[test]
fn commit_pages_cap_the_limit() {
    assert_eq!(commits_default_limit(), 20);
    assert_eq!(SortOrder::default(), SortOrder::Desc);
    let q = CommitsQuery { limit: 500, offset: 3, sort: SortOrder::Asc, path: None };
    let p = q.page();
    assert_eq!((p.limit, p.offset, p.reverse), (MAX_LIMIT, 3, true));
    let q = CommitsQuery { limit: 7, offset: 0, sort: SortOrder::Desc, path: None };
    assert_eq!(q.page().limit, 7);
    assert!(!q.page().reverse);
    assert_eq!(branch_name("refs/heads/main").as_deref(), Some("main"));
    assert_eq!(branch_name("refs/tags/v1"), None);
    assert_eq!(blame_lines(3, 4), Ok((3, 4)));
    assert_eq!(blame_lines(usize::MAX, 4), Err(BlameError::StartLineTooLarge));
    assert_eq!(blame_lines(1, usize::MAX), Err(BlameError::LineCountTooLarge));
}

#[test]
fn smart_http_services_and_headers() {
    assert_eq!(git_service(None), Err(GitHttpError::DumbClient));
    assert_eq!(git_service(Some(" git-upload-pack ")), Ok(GitService::UploadPack));
    assert_eq!(git_service(Some("git-receive-pack")), Ok(GitService::ReceivePack));
    assert_eq!(git_service(Some("git-other")), Err(GitHttpError::ServiceNotFound));
    assert!(speaks_v2(Some("version=2")));
    assert!(!speaks_v2(None));
    assert_eq!(
        check_upload_pack_headers(Some("application/x-git-upload-pack-request"), Some("application/x-git-upload-pack-result"), Some("version=2")),
        Ok(())
    );
    assert_eq!(
        check_upload_pack_headers(Some("application/x-git-upload-pack-request"), Some("application/x-git-upload-pack-result"), None),
        Err(GitHttpError::UnsupportedProtocol)
    );
    assert_eq!(check_upload_pack_headers(None, None, Some("version=2")), Err(GitHttpError::BadRequest));
    assert_eq!(
        check_receive_pack_headers(Some("application/x-git-receive-pack-request"), Some("application/x-git-receive-pack-result")),
        Ok(())
    );
    assert_eq!(check_push(true, false, true, false), Err(GitHttpError::NotFound));
    assert_eq!(check_push(true, true, false, false), Err(GitHttpError::NoPushPermission));
    assert_eq!(check_push(true, true, true, true), Err(GitHttpError::ArchivedReadOnly));
    assert_eq!(check_push(true, true, true, false), Ok(()));
    assert_eq!(check_fetch(true, false), Err(GitHttpError::NotFound));
    assert_eq!(check_receive_advertisement(true, false), Err(GitHttpError::NotFound));
}

fn entry(kind: EntryKind, name: &str) -> TreeEntry {
    TreeEntry { kind, name: name.as_bytes().to_vec(), oid: name.as_bytes().to_vec() }
}

#[test]
fn tree_entries_sort_directories_then_submodules() {
    let sorted = sort_entries(vec![
        entry(EntryKind::Blob, "b"),
        entry(EntryKind::Commit, "sub"),
        entry(EntryKind::Tree, "z"),
        entry(EntryKind::Blob, "a"),
        entry(EntryKind::Tree, "c"),
    ]);
    let names: Vec<&[u8]> = sorted.iter().map(|e| e.name.as_slice()).collect();
    assert_eq!(names, vec![b"c".as_slice(), b"z", b"sub", b"a", b"b"]);
    assert_eq!(join_path("", "a"), "a");
    assert_eq!(join_path("src", "a"), "src/a");
}

#[test]
fn lookups_descend_or_find() {
    let entries = vec![entry(EntryKind::Tree, "src"), entry(EntryKind::Blob, "README")];
    assert!(matches!(lookup_step(&entries, "README", Want::File), Ok(LookupStep::Found(1))));
    match lookup_step(&entries, "src/main.rs", Want::File) {
        Ok(LookupStep::Descend { index, rest }) => {
            assert_eq!(index, 0);
            assert_eq!(rest, "main.rs");
        }
        _ => panic!("expected to descend"),
    }
    assert!(matches!(lookup_step(&entries, "src", Want::File), Err(LookupError::WrongKind)));
    assert!(matches!(lookup_step(&entries, "missing", Want::File), Err(LookupError::NotFound)));
    assert!(matches!(lookup_step(&entries, "README/x", Want::File), Err(LookupError::NotFound)));
}

#[test]
fn directory_pages_sort_by_shown_name() {
    let entries = vec![entry(EntryKind::Blob, "b"), entry(EntryKind::Tree, "d"), entry(EntryKind::Blob, "A")];
    let page = directory_listing(&entries, "src");
    let names: Vec<&str> = page.iter().map(|f| f.name.as_str()).collect();
    assert_eq!(names, vec!["d", "A", "b"]);
    assert_eq!(page[0].path, "src/d");
    let many: Vec<TreeEntry> = (0..1005).map(|i| entry(EntryKind::Blob, &format!("f{i:04}"))).collect();
    assert_eq!(directory_listing(&many, "x").len(), 1000);
}

#[test]
fn file_walks_list_depth_first_within_budget() {
    let mut walk = FileWalk::new(vec![entry(EntryKind::Blob, "z.txt"), entry(EntryKind::Tree, "src")], 10);
    assert!(matches!(walk.step(), WalkStep::Directory(_)));
    walk.descend(vec![entry(EntryKind::Blob, "main.rs")]);
    assert!(matches!(walk.step(), WalkStep::Entry));
    assert!(matches!(walk.step(), WalkStep::Up));
    assert!(matches!(walk.step(), WalkStep::Entry));
    assert!(matches!(walk.step(), WalkStep::Up));
    assert!(matches!(walk.step(), WalkStep::Done));
    let (files, truncated) = walk.finish();
    let paths: Vec<&str> = files.iter().map(|f| f.path.as_str()).collect();
    assert_eq!(paths, vec!["src", "src/main.rs", "z.txt"]);
    assert!(!truncated);

    let mut small = FileWalk::new(vec![entry(EntryKind::Blob, "a"), entry(EntryKind::Blob, "b")], 1);
    assert!(matches!(small.step(), WalkStep::Entry));
    assert!(matches!(small.step(), WalkStep::Done));
    let (files, truncated) = small.finish();
    assert_eq!(files.len(), 1);
    assert!(truncated);

    let mut exact = FileWalk::new(vec![entry(EntryKind::Blob, "a"), entry(EntryKind::Tree, "d")], 3);
    assert!(matches!(exact.step(), WalkStep::Directory(_)));
    exact.descend(vec![entry(EntryKind::Blob, "x")]);
    assert!(matches!(exact.step(), WalkStep::Entry));
    assert!(matches!(exact.step(), WalkStep::Up));
    assert!(matches!(exact.step(), WalkStep::Entry));
    assert!(matches!(exact.step(), WalkStep::Done));
    let (files, truncated) = exact.finish();
    assert_eq!(files.len(), 3);
    assert!(!truncated);
}

#[test]
fn file_contents_are_shown_unless_binary_or_large() {
    let text = file_content(b"hello");
    assert_eq!(text.content.as_deref(), Some("hello"));
    assert!(!text.is_binary);
    let png = file_content(&[0x89, b'P', b'N', b'G', 0x0D, 0x0A, 0x1A, 0x0A, 0, 0]);
    assert!(png.is_binary);
    assert!(png.content.is_none());
    assert!(!png.is_truncated);
    let big = vec![b'a'; MAX_TEXT_SIZE + 1];
    let large = file_content(&big);
    assert!(large.is_truncated);
    assert!(large.content.is_none());
    assert_eq!(large.size, MAX_TEXT_SIZE + 1);
    assert_eq!(blob_content_type("plain words"), "text/plain");
}

#[test]
fn the_proxy_refuses_private_addresses() {
    assert!(is_private_ip(&IpAddress::V4([127, 0, 0, 1])));
    assert!(is_private_ip(&IpAddress::V4([10, 1, 2, 3])));
    assert!(is_private_ip(&IpAddress::V4([172, 16, 0, 1])));
    assert!(!is_private_ip(&IpAddress::V4([172, 32, 0, 1])));
    assert!(is_private_ip(&IpAddress::V4([192, 168, 1, 1])));
    assert!(is_private_ip(&IpAddress::V4([100, 64, 0, 1])));
    assert!(!is_private_ip(&IpAddress::V4([8, 8, 8, 8])));
    assert!(is_private_ip(&IpAddress::V6([0, 0, 0, 0, 0, 0, 0, 1])));
    assert!(is_private_ip(&IpAddress::V6([0, 0, 0, 0, 0, 0xffff, 0x0a00, 0x0001])));
    assert!(!is_private_ip(&IpAddress::V6([0x2001, 0x4860, 0, 0, 0, 0, 0, 0x8888])));
}

#[test]
fn the_proxy_decodes_hex_targets() {
    let t = decode_proxy_target("687474703a2f2f6578616d706c652e636f6d2f612e706e67").ok().unwrap();
    assert_eq!(t.url, "http://example.com/a.png");
    assert_eq!(t.host, "example.com");
    assert_eq!(t.port, 80);
    assert!(matches!(decode_proxy_target(""), Err(ProxyError::EmptyUrl)));
    assert!(matches!(decode_proxy_target("zz"), Err(ProxyError::InvalidHex)));
    assert!(matches!(decode_proxy_target("ff"), Err(ProxyError::InvalidUtf8)));
    assert!(matches!(decode_proxy_target("6869"), Err(ProxyError::InvalidUrl)));
    assert!(is_accepted_image_type("image/png"));
    assert!(!is_accepted_image_type("text/html"));
    assert!(matches!(upstream_header_action("Content-Type", "text/html"), HeaderAction::Reject));
    assert!(matches!(upstream_header_action("content-type", "image/png"), HeaderAction::Skip));
    assert!(matches!(upstream_header_action("ETag", "\"abc\""), HeaderAction::Forward));
    assert!(has_no_body(304));
    assert!(!has_no_body(200));
}

#[test]
fn query_strings_that_can_be_read() {
    for q in ["", "?", "?a=1&b=2", "a=\u{e9}", "&&x", "a&b=\u{e9}&c", "?sort=name_asc"] {
        assert!(query_is_readable(q), "{q}");
        let _ = qstring::QString::from(q);
    }
    for q in ["\u{e9}", "?\u{e9}", "a=1&\u{e9}=2", "=\u{e9}", "a&\u{e9}"] {
        assert!(!query_is_readable(q), "{q}");
    }
}

#[test]
fn gregorian_ids_give_their_time() {
    let ticks: u64 = 0x01B2_1DD2_1381_4000 + 1_700_000_000_123 * 10_000;
    let mut v6 = [0u8; 16];
    for (i, b) in v6.iter_mut().take(6).enumerate() {
        *b = (ticks >> (52 - 8 * i as u64)) as u8;
    }
    v6[6] = 0x60 | ((ticks >> 8) & 0x0F) as u8;
    v6[7] = ticks as u8;
    v6[8] = 0x80;
    assert_eq!(uuid::Uuid::from_bytes(v6).get_version_num(), 6);
    assert_eq!(event_millis(v6), 1_700_000_000_123);
    let mut v1 = [0u8; 16];
    v1[0..4].copy_from_slice(&(ticks as u32).to_be_bytes());
    v1[4..6].copy_from_slice(&((ticks >> 32) as u16).to_be_bytes());
    v1[6] = 0x10 | ((ticks >> 56) & 0x0F) as u8;
    v1[7] = (ticks >> 48) as u8;
    v1[8] = 0x80;
    assert_eq!(event_millis(v1), 1_700_000_000_123);
}
