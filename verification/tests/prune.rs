use pelper::branches::Branch;
use pelper::gitio::GitOutput;
use pelper::prune::{delete_args, delete_branch, prunable_branches, PruneCandidate, PruneScan, ScanStep};

fn out(ok: bool, stdout: &str, stderr: &str) -> GitOutput {
    GitOutput { ok, stdout: stdout.to_string(), stderr: stderr.to_string() }
}

fn args(step: &ScanStep) -> Vec<String> {
    match step {
        ScanStep::Run(a) => a.clone(),
        ScanStep::Finish(c) => panic!("finished early with {} candidates", c.len()),
    }
}

fn finished(step: ScanStep) -> Vec<PruneCandidate> {
    match step {
        ScanStep::Finish(c) => c,
        ScanStep::Run(a) => panic!("still running: {:?}", a),
    }
}

fn defaults() -> Vec<String> {
    vec!["main".to_string(), "master".to_string()]
}

fn branch(name: &str, gone: bool, head: bool) -> Branch {
    Branch {
        name: name.into(),
        last_commit: Some(1),
        author: String::new(),
        subject: String::new(),
        upstream: Some(format!("origin/{name}")),
        ahead: 0,
        behind: 0,
        gone,
        is_head: head,
    }
}

const LISTING: &str = "main\t300\tAda\torigin/main\t\t*\tm\nfeat\t200\tAda\torigin/feat\tgone\t \tf\nwip\t100\tAda\torigin/wip\tgone\t \tw\nkeep\t50\tAda\torigin/keep\t\t \tk\n";

#[test]
fn delete_reports_the_old_tip() {
    let r = delete_branch(&out(true, "Deleted branch feature (was 1a2b3c4).\n", ""));
    assert!(r.ok);
    assert_eq!(r.sha.as_deref(), Some("1a2b3c4"));
    assert_eq!(r.message, "Deleted branch feature (was 1a2b3c4).");
}

#[test]
fn failed_delete_reports_the_error() {
    let r = delete_branch(&out(false, "", "\nerror: branch 'x' not found.\n"));
    assert!(!r.ok);
    assert_eq!(r.sha, None);
    assert_eq!(r.message, "error: branch 'x' not found.");
}

#[test]
fn delete_uses_force() {
    assert_eq!(delete_args("feature"), vec!["branch", "-D", "feature"]);
}

#[test]
fn prunable_excludes_head_and_default() {
    let bs = vec![
        branch("main", true, false),
        branch("feat", true, false),
        branch("cur", true, true),
        branch("live", false, false),
    ];
    let kept = prunable_branches(&bs, &Some("main".to_string()));
    let names: Vec<&str> = kept.iter().map(|b| b.name.as_str()).collect();
    assert_eq!(names, vec!["feat"]);
    let all = prunable_branches(&bs, &None);
    assert_eq!(all.len(), 2);
}

#[test]
fn scan_counts_unique_commits_against_the_default() {
    let (mut scan, step) = PruneScan::begin("api".into(), "/src/api".into(), defaults());
    assert_eq!(args(&step), vec!["fetch", "--all", "--prune"]);
    let step = scan.advance(&out(false, "", "offline"));
    assert_eq!(args(&step), vec!["rev-parse", "--verify", "--quiet", "refs/heads/main"]);
    let step = scan.advance(&out(true, "", ""));
    assert_eq!(args(&step)[0], "for-each-ref");
    let step = scan.advance(&out(true, LISTING, ""));
    assert_eq!(args(&step), vec!["rev-list", "--count", "main..feat"]);
    let step = scan.advance(&out(true, "3\n", ""));
    assert_eq!(args(&step), vec!["rev-list", "--count", "main..wip"]);
    let step = scan.advance(&out(false, "", "bad revision"));
    let found = finished(step);
    assert_eq!(found.len(), 2);
    assert_eq!(found[0].project, "api");
    assert_eq!(found[0].path, "/src/api");
    assert_eq!(found[0].branch, "feat");
    assert_eq!(found[0].last_commit, Some(200));
    assert_eq!(found[0].unique_commits, 3);
    assert_eq!(found[1].branch, "wip");
    assert_eq!(found[1].unique_commits, 0);
}

#[test]
fn scan_without_default_branch_counts_nothing() {
    let (mut scan, _) = PruneScan::begin("api".into(), "/src/api".into(), defaults());
    scan.advance(&out(true, "", ""));
    scan.advance(&out(false, "", ""));
    let step = scan.advance(&out(false, "", ""));
    assert_eq!(args(&step)[0], "for-each-ref");
    let found = finished(scan.advance(&out(true, LISTING, "")));
    let names: Vec<&str> = found.iter().map(|c| c.branch.as_str()).collect();
    assert_eq!(names, vec!["feat", "wip"]);
    assert!(found.iter().all(|c| c.unique_commits == 0));
}

#[test]
fn scan_with_failed_listing_finds_nothing() {
    let (mut scan, _) = PruneScan::begin("api".into(), "/src/api".into(), defaults());
    scan.advance(&out(true, "", ""));
    scan.advance(&out(true, "", ""));
    assert!(scan.can_advance());
    let found = finished(scan.advance(&out(false, "", "fatal")));
    assert!(found.is_empty());
    assert!(!scan.can_advance());
}
