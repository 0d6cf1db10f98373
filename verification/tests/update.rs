use pelper::gitio::GitOutput;
use pelper::update::{classify_pull, pull_outcome, UpdateRun, UpdateStatus, UpdateStep};

fn out(ok: bool, stdout: &str, stderr: &str) -> GitOutput {
    GitOutput { ok, stdout: stdout.to_string(), stderr: stderr.to_string() }
}

fn args(step: &UpdateStep) -> Vec<String> {
    match step {
        UpdateStep::Run(a) => a.clone(),
        UpdateStep::Finish(o) => panic!("finished early: {:?} {}", o.status, o.message),
    }
}

fn finished(step: UpdateStep) -> (UpdateStatus, String) {
    match step {
        UpdateStep::Finish(o) => (o.status, o.message),
        UpdateStep::Run(a) => panic!("still running: {:?}", a),
    }
}

fn defaults() -> Vec<String> {
    vec!["main".to_string(), "master".to_string()]
}

#[test]
fn classify_pull_cases() {
    assert_eq!(classify_pull(true, "Already up to date.\n", "").0, UpdateStatus::UpToDate);
    assert_eq!(classify_pull(true, "Updating a..b\nFast-forward\n", "").0, UpdateStatus::Updated);
    assert_eq!(
        classify_pull(false, "", "fatal: Not possible to fast-forward, aborting.").0,
        UpdateStatus::Warning
    );
}

#[test]
fn classify_pull_messages() {
    assert_eq!(classify_pull(true, "ALREADY UP TO DATE", "").1, "already up to date");
    assert_eq!(classify_pull(true, "Updating a..b\n", "").1, "fast-forwarded");
    assert_eq!(
        classify_pull(false, "", "\n  fatal: diverged  \nhint: x").1,
        "not fast-forwardable: fatal: diverged"
    );
}

#[test]
fn update_on_another_branch_with_local_changes() {
    let (mut run, step) = UpdateRun::begin("api".into(), defaults());
    assert_eq!(args(&step), vec!["fetch", "--all", "--prune"]);
    let step = run.advance(&out(true, "", ""));
    assert_eq!(args(&step), vec!["rev-parse", "--verify", "--quiet", "refs/heads/main"]);
    let step = run.advance(&out(false, "", ""));
    assert_eq!(args(&step), vec!["rev-parse", "--verify", "--quiet", "refs/heads/master"]);
    let step = run.advance(&out(true, "", ""));
    assert_eq!(args(&step), vec!["symbolic-ref", "--quiet", "--short", "HEAD"]);
    let step = run.advance(&out(true, "feature\n", ""));
    assert_eq!(args(&step), vec!["status", "--porcelain"]);
    let step = run.advance(&out(true, " M a.txt\n", ""));
    assert_eq!(
        args(&step),
        vec!["stash", "push", "--include-untracked", "-m", "pelper-autostash"]
    );
    let step = run.advance(&out(true, "", ""));
    assert_eq!(args(&step), vec!["checkout", "master"]);
    let step = run.advance(&out(true, "", ""));
    assert_eq!(args(&step), vec!["pull", "--ff-only"]);
    let step = run.advance(&out(true, "Updating a..b\nFast-forward\n", ""));
    assert_eq!(args(&step), vec!["checkout", "feature"]);
    let step = run.advance(&out(true, "", ""));
    assert_eq!(args(&step), vec!["stash", "pop"]);
    let step = run.advance(&out(true, "", ""));
    assert_eq!(finished(step), (UpdateStatus::Updated, "master: fast-forwarded".to_string()));
}

#[test]
fn update_already_on_default_and_clean() {
    let (mut run, _) = UpdateRun::begin("web".into(), defaults());
    run.advance(&out(true, "", ""));
    run.advance(&out(true, "", ""));
    run.advance(&out(true, "main\n", ""));
    let step = run.advance(&out(true, "  \n", ""));
    assert_eq!(args(&step), vec!["pull", "--ff-only"]);
    let step = run.advance(&out(true, "Already up to date.\n", ""));
    assert_eq!(finished(step), (UpdateStatus::UpToDate, "main: already up to date".to_string()));
}

#[test]
fn failed_fetch_fails_the_update() {
    let (mut run, _) = UpdateRun::begin("x".into(), defaults());
    assert!(run.can_advance());
    let step = run.advance(&out(false, "", "fatal: could not read from remote\n"));
    assert!(!run.can_advance());
    assert_eq!(
        finished(step),
        (UpdateStatus::Failed, "fetch failed: fatal: could not read from remote".to_string())
    );
}

#[test]
fn no_default_branch_skips() {
    let (mut run, _) = UpdateRun::begin("x".into(), defaults());
    run.advance(&out(true, "", ""));
    run.advance(&out(false, "", ""));
    let step = run.advance(&out(false, "", ""));
    assert_eq!(
        finished(step),
        (UpdateStatus::Skipped, "no main/master branch (fetched only)".to_string())
    );
}

#[test]
fn detached_head_skips() {
    let (mut run, _) = UpdateRun::begin("x".into(), defaults());
    run.advance(&out(true, "", ""));
    run.advance(&out(true, "", ""));
    let step = run.advance(&out(false, "", ""));
    assert_eq!(finished(step), (UpdateStatus::Skipped, "detached HEAD (fetched only)".to_string()));
}

#[test]
fn stash_failure_fails() {
    let (mut run, _) = UpdateRun::begin("x".into(), defaults());
    run.advance(&out(true, "", ""));
    run.advance(&out(true, "", ""));
    run.advance(&out(true, "main\n", ""));
    run.advance(&out(true, "?? new\n", ""));
    let step = run.advance(&out(false, "", "error: nope\n"));
    assert_eq!(finished(step), (UpdateStatus::Failed, "could not stash: error: nope".to_string()));
}

#[test]
fn failed_checkout_restores_the_stash() {
    let (mut run, _) = UpdateRun::begin("x".into(), defaults());
    run.advance(&out(true, "", ""));
    run.advance(&out(true, "", ""));
    run.advance(&out(true, "dev\n", ""));
    run.advance(&out(true, " M f\n", ""));
    run.advance(&out(true, "", ""));
    let step = run.advance(&out(false, "", "error: would be overwritten\n"));
    assert_eq!(args(&step), vec!["stash", "pop"]);
    let step = run.advance(&out(true, "", ""));
    assert_eq!(
        finished(step),
        (UpdateStatus::Failed, "checkout main failed: error: would be overwritten".to_string())
    );
}

#[test]
fn not_fast_forwardable_then_failed_return() {
    let (mut run, _) = UpdateRun::begin("x".into(), defaults());
    run.advance(&out(true, "", ""));
    run.advance(&out(true, "", ""));
    run.advance(&out(true, "dev\n", ""));
    run.advance(&out(true, "", ""));
    run.advance(&out(true, "", ""));
    let step = run.advance(&out(false, "", "fatal: Not possible to fast-forward\n"));
    assert_eq!(args(&step), vec!["checkout", "dev"]);
    let step = run.advance(&out(false, "", "error: pathspec\n"));
    assert_eq!(
        finished(step),
        (
            UpdateStatus::Warning,
            "main not fast-forwardable: fatal: Not possible to fast-forward, but failed to return to dev: error: pathspec"
                .to_string()
        )
    );
}

#[test]
fn conflicting_stash_is_left_in_place() {
    let (mut run, _) = UpdateRun::begin("x".into(), defaults());
    run.advance(&out(true, "", ""));
    run.advance(&out(true, "", ""));
    run.advance(&out(true, "main\n", ""));
    run.advance(&out(true, " M f\n", ""));
    run.advance(&out(true, "", ""));
    let step = run.advance(&out(true, "Fast-forward\n", ""));
    assert_eq!(args(&step), vec!["stash", "pop"]);
    let step = run.advance(&out(false, "", "CONFLICT (content)\n"));
    assert_eq!(
        finished(step),
        (
            UpdateStatus::Warning,
            "main fast-forwarded; stashed changes NOT reapplied (conflict) — safe in `git stash`: CONFLICT (content)"
                .to_string()
        )
    );
}

#[test]
fn pull_verdict_on_lowered_output() {
    assert_eq!(
        pull_outcome(true, "already up to date.\n", ""),
        (UpdateStatus::UpToDate, "already up to date".to_string())
    );
    assert_eq!(
        pull_outcome(true, "Already up to date.\n", ""),
        (UpdateStatus::Updated, "fast-forwarded".to_string())
    );
    assert_eq!(
        pull_outcome(false, "", "error: x\n"),
        (UpdateStatus::Warning, "not fast-forwardable: error: x".to_string())
    );
}
