use pelper::repo::Project;
use pelper::scan::{collect_scan, deal, sort_projects, worker_count, ScanMsg};

fn project(name: &str, t: Option<u64>) -> Project {
    let mut p = Project::new(name.into(), format!("/src/{name}"));
    p.last_commit = t;
    p
}

fn names(ps: &[Project]) -> Vec<&str> {
    ps.iter().map(|p| p.name.as_str()).collect()
}

#[test]
fn projects_sorted_newest_first() {
    let mut ps = vec![
        project("old", Some(10)),
        project("none-b", None),
        project("new", Some(99)),
        project("None-a", None),
        project("Tie", Some(50)),
        project("tie0", Some(50)),
    ];
    sort_projects(&mut ps);
    assert_eq!(names(&ps), vec!["new", "Tie", "tie0", "old", "None-a", "none-b"]);
}

#[test]
fn collect_stops_at_done() {
    let msgs = vec![
        ScanMsg::Found(Box::new(project("a", Some(1)))),
        ScanMsg::Found(Box::new(project("b", Some(2)))),
        ScanMsg::Done,
        ScanMsg::Found(Box::new(project("late", Some(3)))),
    ];
    let ps = collect_scan(msgs);
    assert_eq!(names(&ps), vec!["b", "a"]);
    assert!(collect_scan(vec![]).is_empty());
}

#[test]
fn workers_between_one_and_max() {
    assert_eq!(worker_count(0, 8), 1);
    assert_eq!(worker_count(3, 8), 3);
    assert_eq!(worker_count(20, 8), 8);
}

#[test]
fn dealing_round_robin() {
    let chunks = deal(vec![0, 1, 2, 3, 4, 5, 6], 3);
    assert_eq!(chunks, vec![vec![0, 3, 6], vec![1, 4], vec![2, 5]]);
    let one = deal(Vec::<u8>::new(), 1);
    assert_eq!(one, vec![Vec::<u8>::new()]);
}

#[test]
fn equal_keys_keep_their_scan_order() {
    let mut a = project("Same", Some(5));
    a.path = "/first/Same".into();
    let mut b = project("same", Some(5));
    b.path = "/second/same".into();
    let mut ps = vec![project("x", Some(1)), a, b];
    sort_projects(&mut ps);
    let paths: Vec<&str> = ps.iter().map(|p| p.path.as_str()).collect();
    assert_eq!(paths, vec!["/first/Same", "/second/same", "/src/x"]);
}
