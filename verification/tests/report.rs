use pelper::prune::{DeleteResult, PruneCandidate};
use pelper::repo::Project;
use pelper::report::{
    count_deletions, deletion_plan, outcome_statuses, project_targets, prune_status, resolve_targets,
    sort_candidates, sort_outcomes, status_icon, sync_summary, tally, truncate, TargetError,
};
use pelper::update::{UpdateOutcome, UpdateStatus};

fn project(name: &str) -> Project {
    Project::new(name.into(), format!("/src/{name}"))
}

fn outcome(name: &str, status: UpdateStatus) -> UpdateOutcome {
    UpdateOutcome { name: name.into(), status, message: String::new() }
}

fn candidate(project: &str, branch: &str) -> PruneCandidate {
    PruneCandidate {
        project: project.into(),
        path: format!("/src/{project}"),
        branch: branch.into(),
        last_commit: None,
        unique_commits: 0,
    }
}

#[test]
fn truncate_adds_an_ellipsis() {
    assert_eq!(truncate("hello", 5), "hello");
    assert_eq!(truncate("hello", 3), "he…");
    assert_eq!(truncate("héllo wörld", 6), "héllo…");
    assert_eq!(truncate("abc", 0), "…");
    assert_eq!(truncate("", 0), "");
}

#[test]
fn targets_are_every_project_in_order() {
    let ps = vec![project("b"), project("a")];
    let ts = project_targets(&ps);
    assert_eq!(ts, vec![("b".to_string(), "/src/b".to_string()), ("a".to_string(), "/src/a".to_string())]);
    assert_eq!(resolve_targets(&ps, None).ok().unwrap().len(), 2);
}

#[test]
fn targets_filtered_by_name() {
    let ps = vec![project("api"), project("web"), project("api")];
    let ts = resolve_targets(&ps, Some("api".into())).ok().unwrap();
    assert_eq!(ts.len(), 2);
    assert!(ts.iter().all(|t| t.0 == "api"));
}

#[test]
fn unknown_project_is_an_error() {
    let ps = vec![project("api")];
    match resolve_targets(&ps, Some("nope".into())) {
        Err(e) => {
            assert_eq!(e.message(), "no project named 'nope' under the configured roots");
            let TargetError::NoSuchProject(n) = e;
            assert_eq!(n, "nope");
        }
        Ok(_) => panic!("expected an error"),
    }
    let empty: Vec<Project> = vec![];
    assert!(resolve_targets(&empty, None).ok().unwrap().is_empty());
    assert!(resolve_targets(&empty, Some("x".into())).is_err());
}

#[test]
fn icons_and_sync() {
    assert_eq!(status_icon(UpdateStatus::Updated), "✓");
    assert_eq!(status_icon(UpdateStatus::UpToDate), "=");
    assert_eq!(status_icon(UpdateStatus::Warning), "⚠");
    assert_eq!(status_icon(UpdateStatus::Failed), "✗");
    assert_eq!(status_icon(UpdateStatus::Skipped), "⊘");
    assert_eq!(sync_summary(Some((0, 0))), "ok");
    assert_eq!(sync_summary(Some((2, 10))), "+2 -10");
    assert_eq!(sync_summary(None), "-");
    assert_eq!(prune_status(0), "merged");
    assert_eq!(prune_status(12), "12 ahead");
}

#[test]
fn tally_counts_each_status() {
    let os = vec![
        outcome("a", UpdateStatus::Updated),
        outcome("b", UpdateStatus::Failed),
        outcome("c", UpdateStatus::Updated),
        outcome("d", UpdateStatus::Skipped),
    ];
    let t = tally(&outcome_statuses(&os));
    assert_eq!((t.updated, t.current, t.warning, t.failed, t.skipped), (2, 0, 0, 1, 1));
}

#[test]
fn outcomes_sorted_by_lowercase_name() {
    let os = vec![
        outcome("beta", UpdateStatus::Updated),
        outcome("Alpha", UpdateStatus::Failed),
        outcome("alpha", UpdateStatus::Skipped),
    ];
    let sorted = sort_outcomes(os);
    let names: Vec<&str> = sorted.iter().map(|o| o.name.as_str()).collect();
    assert_eq!(names, vec!["Alpha", "alpha", "beta"]);
    let sorted = sort_outcomes(vec![outcome("alpha", UpdateStatus::Updated), outcome("Zeta", UpdateStatus::Updated)]);
    assert_eq!(sorted[0].name, "alpha");
}

#[test]
fn candidates_sorted_by_project_then_branch() {
    let cs = vec![candidate("web", "b"), candidate("API", "z"), candidate("web", "a"), candidate("api", "Z")];
    let sorted = sort_candidates(cs);
    let keys: Vec<(&str, &str)> = sorted.iter().map(|c| (c.project.as_str(), c.branch.as_str())).collect();
    assert_eq!(keys, vec![("api", "Z"), ("API", "z"), ("web", "a"), ("web", "b")]);
}

#[test]
fn deletions_counted() {
    let rs = vec![
        DeleteResult { ok: true, sha: Some("a".into()), message: String::new() },
        DeleteResult { ok: false, sha: None, message: "x".into() },
        DeleteResult { ok: true, sha: None, message: String::new() },
    ];
    assert_eq!(count_deletions(&rs), (2, 1));
}

#[test]
fn yes_deletes_every_listed_candidate_once_in_order() {
    let cs = sort_candidates(vec![candidate("web", "b"), candidate("api", "x"), candidate("web", "a")]);
    assert!(deletion_plan(&cs, false).is_empty());
    let plan = deletion_plan(&cs, true);
    let got: Vec<(usize, &str, &str)> =
        plan.iter().map(|d| (d.index, d.path.as_str(), d.branch.as_str())).collect();
    assert_eq!(got, vec![(0, "/src/api", "x"), (1, "/src/web", "a"), (2, "/src/web", "b")]);
}
