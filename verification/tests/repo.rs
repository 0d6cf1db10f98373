use pelper::repo::{head_time_args, load_project, parse_status, project_name, status_args, Project};
use std::path::Path;

#[test]
fn parses_branch_ahead_behind_and_dirty() {
    let mut p = Project::new("x".into(), "/x".into());
    let s = "# branch.oid abc123\n# branch.head main\n# branch.upstream origin/main\n# branch.ab +2 -1\n1 .M N... 100644 100644 100644 aaa bbb file.rs\n";
    parse_status(&mut p, s);
    assert_eq!(p.branch, "main");
    assert!(!p.detached);
    assert_eq!(p.upstream, Some((2, 1)));
    assert!(p.dirty);
}

#[test]
fn parses_detached_clean() {
    let mut p = Project::new("x".into(), "/x".into());
    let s = "# branch.oid deadbeefcafe1234\n# branch.head (detached)\n";
    parse_status(&mut p, s);
    assert!(p.detached);
    assert_eq!(p.branch, "@deadbee");
    assert!(!p.dirty);
    assert_eq!(p.upstream, None);
}

#[test]
fn clean_repo_no_upstream() {
    let mut p = Project::new("x".into(), "/x".into());
    let s = "# branch.oid abc\n# branch.head main\n";
    parse_status(&mut p, s);
    assert!(!p.dirty);
    assert_eq!(p.upstream, None);
    assert_eq!(p.branch, "main");
}

#[test]
fn new_project_is_unknown() {
    let p = Project::new("api".into(), "/src/api".into());
    assert_eq!(p.name, "api");
    assert_eq!(p.path, "/src/api");
    assert_eq!(p.branch, "?");
    assert!(!p.detached && !p.dirty);
    assert_eq!(p.upstream, None);
    assert_eq!(p.last_commit, None);
    assert_eq!(p.error, None);
}

#[test]
fn repository_without_commits_is_marked() {
    let mut p = Project::new("x".into(), "/x".into());
    parse_status(&mut p, "# branch.oid (initial)\n# branch.head main\n");
    assert_eq!(p.branch, "main (no commits)");
    let mut q = Project::new("y".into(), "/y".into());
    parse_status(&mut q, "# branch.oid (initial)\n# branch.head (detached)\n");
    assert_eq!(q.branch, "(detached)");
}

#[test]
fn short_oid_is_kept_whole_and_untracked_files_make_it_dirty() {
    let mut p = Project::new("x".into(), "/x".into());
    parse_status(&mut p, "# branch.oid abc\n# branch.head (detached)\n? new.txt\n");
    assert_eq!(p.branch, "@abc");
    assert!(p.dirty);
}

#[test]
fn unreadable_counts_read_as_zero() {
    let mut p = Project::new("x".into(), "/x".into());
    parse_status(&mut p, "# branch.head dev\r\n# branch.ab +x -3\r\n");
    assert_eq!(p.branch, "dev");
    assert_eq!(p.upstream, Some((0, 3)));
    assert!(!p.dirty);
}

#[test]
fn load_project_reads_both_outputs() {
    let p = load_project(
        "/src/web".into(),
        Some("# branch.oid abc\n# branch.head main\n# branch.ab +0 -0\n".into()),
        Some("1700000000\n".into()),
    );
    assert_eq!(p.name, "web");
    assert_eq!(p.branch, "main");
    assert_eq!(p.upstream, Some((0, 0)));
    assert_eq!(p.last_commit, Some(1_700_000_000));
    assert_eq!(p.error, None);
}

#[test]
fn load_project_records_a_failed_status() {
    let p = load_project("/src/web/".into(), None, Some("garbage".into()));
    assert_eq!(p.name, "web");
    assert_eq!(p.path, "/src/web/");
    assert_eq!(p.error.as_deref(), Some("git status failed"));
    assert_eq!(p.branch, "?");
    assert_eq!(p.last_commit, None);
}

#[test]
fn git_arguments() {
    assert_eq!(status_args(), vec!["status", "--porcelain=v2", "--branch"]);
    assert_eq!(head_time_args(), vec!["log", "-1", "--format=%ct"]);
}

#[test]
fn project_name_is_the_last_component() {
    assert_eq!(project_name("/home/u/coding/web"), "web");
    assert_eq!(project_name("/home/u/coding/web/"), "web");
    assert_eq!(project_name("a//b/./"), "b");
    assert_eq!(project_name("web"), "web");
    assert_eq!(project_name("/"), "/");
    assert_eq!(project_name("a/.."), "a/..");
    assert_eq!(project_name("."), ".");
    assert_eq!(project_name(""), "");
}

#[test]
fn project_name_agrees_with_path_file_name() {
    for p in ["/a/b", "/a/b/", "a/b/.", "./a", "./.", "..", "a/../b", "/x/.hidden", "//", "a/b//", ".../x/..."] {
        let expected = Path::new(p)
            .file_name()
            .map(|s| s.to_string_lossy().into_owned())
            .unwrap_or_else(|| p.to_string());
        assert_eq!(project_name(p), expected, "path {p:?}");
    }
}
