use pelper::branches::{parse_branch, parse_branches, parse_track, sort_branches, Branch};
use pelper::order::branch_order;
use std::cmp::Ordering;

fn mk(name: &str, t: u64) -> Branch {
    Branch {
        name: name.into(),
        last_commit: Some(t),
        author: String::new(),
        subject: String::new(),
        upstream: None,
        ahead: 0,
        behind: 0,
        gone: false,
        is_head: false,
    }
}

fn names(v: &[Branch]) -> Vec<&str> {
    v.iter().map(|b| b.name.as_str()).collect()
}

#[test]
fn parse_track_variants() {
    assert_eq!(parse_track(""), (0, 0, false));
    assert_eq!(parse_track("gone"), (0, 0, true));
    assert_eq!(parse_track("ahead 2"), (2, 0, false));
    assert_eq!(parse_track("behind 3"), (0, 3, false));
    assert_eq!(parse_track("ahead 2, behind 1"), (2, 1, false));
}

#[test]
fn parses_branch_line() {
    let line = "feature\t1700000000\tAda Lovelace\torigin/feature\tahead 1\t \tDo the thing";
    let b = parse_branch(line).unwrap();
    assert_eq!(b.name, "feature");
    assert_eq!(b.author, "Ada Lovelace");
    assert_eq!(b.subject, "Do the thing");
    assert_eq!(b.upstream.as_deref(), Some("origin/feature"));
    assert_eq!((b.ahead, b.behind, b.gone), (1, 0, false));
    assert!(!b.is_head);
}

#[test]
fn parses_head_and_gone() {
    let head = parse_branch("main\t1700000000\tAda\t\t\t*\tInit").unwrap();
    assert!(head.is_head);
    assert_eq!(head.upstream, None);

    let stale = parse_branch("old\t1\tAda\torigin/old\tgone\t \tx").unwrap();
    assert!(stale.gone);
}

#[test]
fn primary_branches_sort_first() {
    let defaults = vec!["main".to_string(), "master".to_string()];
    let mut v = vec![mk("feature", 100), mk("main", 1), mk("other", 200)];
    v.sort_by(|a, b| branch_order(a, b, &defaults));
    let order: Vec<&str> = v.iter().map(|b| b.name.as_str()).collect();
    assert_eq!(order, vec!["main", "other", "feature"]);
}

#[test]
fn track_with_unparsable_count_reads_zero() {
    assert_eq!(parse_track("ahead x, behind 4"), (0, 4, false));
    assert_eq!(parse_track("behind 1, gone"), (0, 0, true));
}

#[test]
fn branch_line_without_name_is_skipped() {
    assert!(parse_branch("\t1700000000\tAda\t\t\t\tx").is_none());
    assert!(parse_branch("").is_none());
}

#[test]
fn branch_line_with_missing_fields_uses_defaults() {
    let b = parse_branch("lonely").unwrap();
    assert_eq!(b.name, "lonely");
    assert_eq!(b.last_commit, None);
    assert_eq!(b.author, "");
    assert_eq!(b.upstream, None);
    assert!(!b.gone && !b.is_head);
}

#[test]
fn branch_line_with_bad_date_has_no_time() {
    let b = parse_branch("x\tsoon\tAda\t\t\t\ts").unwrap();
    assert_eq!(b.last_commit, None);
    let c = parse_branch("y\t 42 \tAda\t\t\t\ts").unwrap();
    assert_eq!(c.last_commit, Some(42));
}

#[test]
fn subject_keeps_its_tabs() {
    let b = parse_branch("x\t1\tAda\t\t\t\tone\ttwo").unwrap();
    assert_eq!(b.subject, "one\ttwo");
}

#[test]
fn default_order_follows_the_defaults_list() {
    let defaults = vec!["main".to_string(), "master".to_string()];
    let v = vec![mk("master", 500), mk("zeta", 900), mk("main", 1)];
    let sorted = sort_branches(v, &defaults);
    assert_eq!(names(&sorted), vec!["main", "master", "zeta"]);
}

#[test]
fn branches_without_time_come_last_then_by_lowercase_name() {
    let defaults: Vec<String> = vec![];
    let mut a = mk("Beta", 0);
    a.last_commit = None;
    let mut b = mk("alpha", 0);
    b.last_commit = None;
    let c = mk("gamma", 5);
    let d = mk("Delta", 5);
    let sorted = sort_branches(vec![a, b, c, d], &defaults);
    assert_eq!(names(&sorted), vec!["Delta", "gamma", "alpha", "Beta"]);
}

#[test]
fn branch_order_values() {
    let defaults = vec!["main".to_string()];
    assert_eq!(branch_order(&mk("main", 1), &mk("x", 9), &defaults), Ordering::Less);
    assert_eq!(branch_order(&mk("x", 9), &mk("main", 1), &defaults), Ordering::Greater);
    assert_eq!(branch_order(&mk("x", 9), &mk("x", 9), &defaults), Ordering::Equal);
    assert_eq!(branch_order(&mk("old", 1), &mk("new", 2), &defaults), Ordering::Greater);
}

#[test]
fn parses_a_listing_in_listing_order() {
    let out = "feature\t100\tAda\torigin/feature\t\t \tf\nmain\t50\tAda\torigin/main\t\t*\tm\n\nold\t200\tAda\torigin/old\tgone\t \to\n";
    let defaults = vec!["main".to_string(), "master".to_string()];
    let bs = parse_branches(out, &defaults);
    assert_eq!(names(&bs), vec!["main", "old", "feature"]);
    assert!(bs[0].is_head);
    assert!(bs[1].gone);
    assert!(parse_branches("", &defaults).is_empty());
}
