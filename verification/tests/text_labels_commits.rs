use gitarena::commit::{
    diff_stats, pick_branch, split_message, BranchCandidate, DiffCollector, DiffFile, DiffLineKind, DiffLineRecord, DiffStatus,
    HunkHeader,
};
use gitarena::labels::{
    check_label_update, check_new_label, conflicting_scope, default_labels, eq_ignore_ascii_case, is_valid_hex_color, label_scope,
    labels_after_change, new_label, LabelError, LabelFields,
};
use gitarena::number::{parse_i32, parse_u32, push_decimal};
use gitarena::text::{chars_of, first_line, text_is, trimmed};
use gitarena::timeline::{build_timeline, BugStatus, OperationKind, TimelineKind, TimelineOp, TimelinePack, TimelineStatus};

fn strings(v: &[&str]) -> Vec<String> {
    v.iter().map(|s| s.to_string()).collect()
}

fn chars(s: &str) -> Vec<char> {
    s.chars().collect()
}

#[test]
fn trimmed_removes_surrounding_white_space() {
    assert_eq!(trimmed("  hello world \n\t"), "hello world");
    assert_eq!(trimmed("   "), "");
    assert_eq!(trimmed(""), "");
}

#[test]
fn first_line_stops_at_line_ending() {
    assert_eq!(first_line("summary\r\nbody"), "summary");
    assert_eq!(first_line("only"), "only");
    assert_eq!(first_line(""), "");
}

#[test]
fn text_helpers_compare_exactly() {
    assert_eq!(chars_of("añb"), vec!['a', 'ñ', 'b']);
    assert!(text_is(&chars("asc"), "asc"));
    assert!(!text_is(&chars("asc "), "asc"));
}

#[test]
fn parse_u32_follows_str_parse() {
    assert_eq!(parse_u32(&chars("0")), Some(0));
    assert_eq!(parse_u32(&chars("+42")), Some(42));
    assert_eq!(parse_u32(&chars("4294967295")), Some(u32::MAX));
    assert_eq!(parse_u32(&chars("4294967296")), None);
    assert_eq!(parse_u32(&chars("-1")), None);
    assert_eq!(parse_u32(&chars("")), None);
    assert_eq!(parse_u32(&chars("+")), None);
    assert_eq!(parse_u32(&chars("12a")), None);
}

#[test]
fn parse_i32_follows_str_parse() {
    assert_eq!(parse_i32(&chars("-2147483648")), Some(i32::MIN));
    assert_eq!(parse_i32(&chars("2147483647")), Some(i32::MAX));
    assert_eq!(parse_i32(&chars("2147483648")), None);
    assert_eq!(parse_i32(&chars("-2147483649")), None);
    assert_eq!(parse_i32(&chars("-")), None);
    assert_eq!(parse_i32(&chars("+17")), Some(17));
}

#[test]
fn push_decimal_writes_display_text() {
    let mut s = String::from("n=");
    push_decimal(&mut s, 0);
    assert_eq!(s, "n=0");
    let mut t = String::new();
    push_decimal(&mut t, 18446744073709551615);
    assert_eq!(t, "18446744073709551615");
}

#[test]
fn split_message_separates_summary_and_body() {
    let (summary, body) = split_message("Fix bug\n\nDetails here\n");
    assert_eq!(summary, "Fix bug");
    assert_eq!(body.as_deref(), Some("Details here"));
    let (summary, body) = split_message("Just a summary");
    assert_eq!(summary, "Just a summary");
    assert_eq!(body, None);
    let (summary, body) = split_message("Title\nsecond line\n\nBody");
    assert_eq!(summary, "Title");
    assert_eq!(body.as_deref(), Some("Body"));
    let (summary, body) = split_message("Title\r\nmore\n\n \n");
    assert_eq!(summary, "Title");
    assert_eq!(body, None);
}

#[test]
fn label_scope_is_text_before_double_colon() {
    assert_eq!(label_scope(&"type::bug".to_string()).as_deref(), Some("type"));
    assert_eq!(label_scope(&"a::b::c".to_string()).as_deref(), Some("a"));
    assert_eq!(label_scope(&"plain".to_string()), None);
    assert_eq!(label_scope(&"one:colon".to_string()), None);
}

#[test]
fn conflicting_scope_reports_first_repeated_scope() {
    assert_eq!(conflicting_scope(&strings(&["type::bug", "status::open", "type::feature"])).as_deref(), Some("type"));
    assert_eq!(conflicting_scope(&strings(&["type::bug", "status::open", "plain", "plain"])), None);
    assert_eq!(conflicting_scope(&[]), None);
    assert_eq!(conflicting_scope(&strings(&["a::x", "b::x", "b::y", "a::z"])).as_deref(), Some("b"));
}

#[test]
fn scopes_distinct_means_no_conflict() {
    let labels = strings(&["type::bug", "status::blocked", "good first issue"]);
    assert_eq!(conflicting_scope(&labels), None);
}

#[test]
fn labels_after_change_removes_then_appends() {
    let r = labels_after_change(&strings(&["a", "b", "a", "c"]), &strings(&["d"]), &strings(&["a"]));
    assert_eq!(r, strings(&["b", "c", "d"]));
}

#[test]
fn hex_colors_are_hash_and_six_hex_digits() {
    assert!(is_valid_hex_color("#ff0000"));
    assert!(is_valid_hex_color("#A1b2C3"));
    assert!(!is_valid_hex_color("ff0000"));
    assert!(!is_valid_hex_color("#ff000"));
    assert!(!is_valid_hex_color("#gg0000"));
    assert!(!is_valid_hex_color("#ff00000"));
}

#[test]
fn ascii_case_is_ignored_only_for_ascii() {
    assert!(eq_ignore_ascii_case("Bug", "bUG"));
    assert!(!eq_ignore_ascii_case("Bug", "Bugs"));
    assert!(!eq_ignore_ascii_case("É", "é"));
}

#[test]
fn new_label_trims_and_lowercases() {
    let l = new_label("  Bug ", " #FF0000 ", Some(" broken ")).unwrap();
    assert_eq!(l.name, "Bug");
    assert_eq!(l.color, "#ff0000");
    assert_eq!(l.description, "broken");
    assert!(matches!(new_label("   ", "#ff0000", None), Err(LabelError::EmptyName)));
    assert!(matches!(new_label("x", "red", None), Err(LabelError::InvalidColor)));
    let l = new_label("x", "#00ff00", None).unwrap();
    assert_eq!(l.description, "");
}

#[test]
fn check_new_label_refuses_taken_names() {
    assert!(matches!(check_new_label("bug", "#ff0000", None, true), Err(LabelError::DuplicateName)));
    assert!(check_new_label("bug", "#ff0000", None, false).is_ok());
    assert!(matches!(check_new_label("", "#ff0000", None, true), Err(LabelError::EmptyName)));
}

#[test]
fn label_update_keeps_missing_fields_and_detects_renames() {
    let existing = LabelFields { name: "Bug".to_string(), color: "#ff0000".to_string(), description: "d".to_string() };
    let u = check_label_update(Some(&existing), Some(" bug "), None, None, true).unwrap();
    assert_eq!(u.fields.name, "bug");
    assert_eq!(u.fields.color, "#ff0000");
    assert_eq!(u.fields.description, "d");
    assert!(!u.renamed);
    assert!(matches!(check_label_update(Some(&existing), Some("defect"), None, None, true), Err(LabelError::DuplicateName)));
    let u = check_label_update(Some(&existing), Some("defect"), Some("#00FF00"), Some(" x "), false).unwrap();
    assert!(u.renamed);
    assert_eq!(u.fields.color, "#00ff00");
    assert_eq!(u.fields.description, "x");
    assert!(matches!(check_label_update(None, None, None, None, false), Err(LabelError::NotFound)));
    assert!(matches!(check_label_update(Some(&existing), None, Some("blue"), None, false), Err(LabelError::InvalidColor)));
}

#[test]
fn default_labels_have_valid_colors() {
    let labels = default_labels();
    assert_eq!(labels.len(), 14);
    assert_eq!(labels[0], ("type::bug", "#5c6bc0", None));
    assert_eq!(labels[13].0, "security");
    for (_, color, _) in labels {
        assert!(is_valid_hex_color(color));
    }
}

fn line(origin: char, old: Option<u32>, new: Option<u32>, content: &str) -> DiffLineRecord {
    DiffLineRecord { origin, old_lineno: old, new_lineno: new, content: content.as_bytes().to_vec() }
}

fn hunk(header: &str) -> Option<HunkHeader> {
    Some(HunkHeader { header: header.as_bytes().to_vec(), old_start: 1, old_lines: 2, new_start: 1, new_lines: 2 })
}

#[test]
fn diff_collector_builds_hunks_and_counts_lines() {
    let files = vec![
        DiffFile::from_delta(DiffStatus::Modified, Some("a.txt".to_string()), Some("a.txt".to_string()), false),
        DiffFile::from_delta(DiffStatus::Renamed, Some("c.txt".to_string()), Some("b.txt".to_string()), false),
    ];
    assert_eq!(files[0].old_path, None);
    assert_eq!(files[1].old_path.as_deref(), Some("b.txt"));
    let mut c = DiffCollector::new(files);
    let h = hunk("@@ -1,2 +1,2 @@\n");
    assert!(c.on_line(&None, &line('F', None, None, "diff --git")));
    assert!(c.on_line(&h, &line('H', None, None, "@@ -1,2 +1,2 @@\n")));
    assert!(c.on_line(&h, &line(' ', Some(1), Some(1), "same\n")));
    assert!(c.on_line(&h, &line('-', Some(2), None, "old\n")));
    assert!(c.on_line(&h, &line('+', None, Some(2), "new\n")));
    assert!(c.on_line(&None, &line('F', None, None, "diff --git")));
    let h2 = hunk("@@ -1 +1 @@");
    assert!(c.on_line(&h2, &line('+', None, Some(1), "added")));
    let files = c.finish();
    assert_eq!(files[0].hunks.len(), 1);
    assert_eq!(files[0].hunks[0].header, "@@ -1,2 +1,2 @@");
    assert_eq!(files[0].hunks[0].lines.len(), 3);
    assert_eq!(files[0].hunks[0].lines[1].kind, DiffLineKind::Deletion);
    assert_eq!(files[0].hunks[0].lines[2].content, "new");
    assert_eq!(files[0].stats.insertions, 1);
    assert_eq!(files[0].stats.deletions, 1);
    assert_eq!(files[1].stats.insertions, 1);
    let stats = diff_stats(&files);
    assert_eq!(stats.files_changed, 2);
    assert_eq!(stats.insertions, 2);
    assert_eq!(stats.deletions, 1);
}

#[test]
fn diff_collector_drops_hunks_of_too_large_files() {
    let files = vec![DiffFile::from_delta(DiffStatus::Added, Some("big".to_string()), None, false)];
    let mut c = DiffCollector::new(files);
    let h = hunk("@@ -0,0 +1,6000 @@");
    c.on_line(&None, &line('F', None, None, ""));
    for i in 0..6000u32 {
        assert!(c.has_room());
        c.on_line(&h, &line('+', None, Some(i + 1), "x"));
    }
    c.on_line(&h, &line('-', Some(1), None, "y"));
    c.on_line(&h, &line(' ', Some(2), Some(2), "z"));
    let files = c.finish();
    assert!(files[0].too_large);
    assert!(files[0].hunks.is_empty());
    assert_eq!(files[0].stats.insertions, 6000);
    assert_eq!(files[0].stats.deletions, 1);
    let stats = diff_stats(&files);
    assert_eq!(stats.insertions, 6000);
}

#[test]
fn pick_branch_prefers_the_default_branch() {
    let cands = vec![
        BranchCandidate { name: Some("refs/heads/dev".to_string()), shorthand: Some("dev".to_string()) },
        BranchCandidate { name: Some("refs/heads/main".to_string()), shorthand: Some("main".to_string()) },
    ];
    assert_eq!(pick_branch(&cands, "main").as_deref(), Some("main"));
    assert_eq!(pick_branch(&cands, "trunk").as_deref(), Some("dev"));
    assert_eq!(pick_branch(&vec![], "main"), None);
}

fn op(kind: OperationKind, ts: i64) -> TimelineOp {
    TimelineOp { kind, timestamp: ts, title: None, status: None, added: None, removed: None }
}

#[test]
fn build_timeline_follows_titles_statuses_and_labels() {
    let mut create = op(OperationKind::Create, 1);
    create.title = Some("first".to_string());
    let mut retitle = op(OperationKind::SetTitle, 2);
    retitle.title = Some("second".to_string());
    let mut close = op(OperationKind::SetStatus, 3);
    close.status = Some(BugStatus::Closed);
    let mut labels = op(OperationKind::LabelChange, 4);
    labels.added = Some(strings(&["bug"]));
    labels.removed = Some(strings(&["wontfix"]));
    let packs = vec![TimelinePack { author_username: "alice".to_string(), ops: vec![create, retitle, close, labels, op(OperationKind::Other, 5)] }];
    let events = build_timeline(&packs);
    assert_eq!(events.len(), 5);
    assert_eq!(events[0].kind, TimelineKind::Created);
    assert_eq!(events[1].kind, TimelineKind::TitleChanged);
    assert_eq!(events[1].old_title.as_deref(), Some("first"));
    assert_eq!(events[1].new_title.as_deref(), Some("second"));
    assert_eq!(events[2].kind, TimelineKind::StatusChanged);
    assert_eq!(events[2].status, Some(TimelineStatus::Closed));
    assert_eq!(events[3].kind, TimelineKind::LabelAdded);
    assert_eq!(events[3].label.as_deref(), Some("bug"));
    assert_eq!(events[4].kind, TimelineKind::LabelRemoved);
    assert_eq!(events[4].author_username, "alice");
}
