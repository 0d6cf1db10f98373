use pelper::branches::Branch;
use pelper::display::{
    branch_name_style, branch_sync, delete_prompt, done_row_cells, last_seen, project_branch_tone,
    project_sync, review_row_cells, roots_line, spinner_frame, update_row_cells, update_summary,
    Piece, Tone,
};
use pelper::help::bindings;
use pelper::prune::DeleteResult;
use pelper::repo::Project;
use pelper::states::{Candidate, RowState, Screen, UpdateRow};
use pelper::update::{UpdateOutcome, UpdateStatus};

fn texts(ps: &[Piece]) -> Vec<(&str, Tone)> {
    ps.iter().map(|p| (p.text.as_str(), p.tone)).collect()
}

fn branch(ahead: usize, behind: usize) -> Branch {
    Branch {
        name: "b".into(),
        last_commit: None,
        author: String::new(),
        subject: String::new(),
        upstream: Some("origin/b".into()),
        ahead,
        behind,
        gone: false,
        is_head: false,
    }
}

fn candidate(selected: bool, unique: usize, result: Option<DeleteResult>) -> Candidate {
    Candidate {
        project: "p".into(),
        path: "/p".into(),
        branch: "b".into(),
        last_commit: None,
        unique_commits: unique,
        selected,
        result,
    }
}

#[test]
fn branch_sync_marks() {
    assert_eq!(texts(&branch_sync(&branch(0, 0))), vec![("✓", Tone::Green)]);
    assert_eq!(
        texts(&branch_sync(&branch(2, 1))),
        vec![("↑2", Tone::Green), (" ", Tone::Plain), ("↓1", Tone::Red)]
    );
    assert_eq!(texts(&branch_sync(&branch(0, 4))), vec![("↓4", Tone::Red)]);
    let mut gone = branch(3, 0);
    gone.gone = true;
    let g = branch_sync(&gone);
    assert_eq!(texts(&g), vec![("gone", Tone::Red)]);
    assert!(g[0].bold);
    let mut local = branch(0, 0);
    local.upstream = None;
    assert_eq!(texts(&branch_sync(&local)), vec![("local", Tone::DarkGray)]);
}

#[test]
fn project_sync_marks() {
    let mut p = Project::new("x".into(), "/x".into());
    assert_eq!(texts(&project_sync(&p)), vec![("—", Tone::DarkGray)]);
    p.upstream = Some((0, 0));
    assert_eq!(texts(&project_sync(&p)), vec![("✓", Tone::Green)]);
    p.upstream = Some((5, 0));
    assert_eq!(texts(&project_sync(&p)), vec![("↑5", Tone::Green)]);
    assert_eq!(project_branch_tone(&p), Tone::Green);
    p.detached = true;
    assert_eq!(project_branch_tone(&p), Tone::Magenta);
    p.error = Some("git status failed".into());
    assert_eq!(project_branch_tone(&p), Tone::Red);
}

#[test]
fn branch_names_by_role() {
    let defaults = vec!["main".to_string()];
    let mut b = branch(0, 0);
    assert_eq!(branch_name_style(&b, &defaults), (Tone::White, false));
    b.name = "main".into();
    b.is_head = true;
    assert_eq!(branch_name_style(&b, &defaults), (Tone::Cyan, true));
    b.gone = true;
    assert_eq!(branch_name_style(&b, &defaults), (Tone::Red, true));
}

#[test]
fn update_rows_and_summary() {
    let rows = vec![
        UpdateRow { name: "a".into(), state: RowState::Pending },
        UpdateRow { name: "b".into(), state: RowState::Running },
        UpdateRow {
            name: "c".into(),
            state: RowState::Done(UpdateOutcome {
                name: "c".into(),
                status: UpdateStatus::Failed,
                message: "fetch failed: x".into(),
            }),
        },
    ];
    let (i, m) = update_row_cells(&rows[0], 0);
    assert_eq!((i.text.as_str(), m.text.as_str()), ("·", "queued"));
    let (i, m) = update_row_cells(&rows[1], 12);
    assert_eq!((i.text.as_str(), i.tone, m.text.as_str()), ("⠹", Tone::Yellow, "updating…"));
    let (i, m) = update_row_cells(&rows[2], 0);
    assert_eq!((i.text.as_str(), i.tone, m.text.as_str()), ("✗", Tone::Red, "fetch failed: x"));
    let s = update_summary(&rows);
    let t: Vec<&str> = s.iter().map(|p| p.text.as_str()).collect();
    assert_eq!(t, vec![" ✓ 0 updated", "   = 0 current", "   ⚠ 0", "   ✗ 1", "   ⊘ 0"]);
}

#[test]
fn prune_cells() {
    let (check, tone, status) = review_row_cells(&candidate(true, 0, None));
    assert_eq!((check.text.as_str(), tone, status.text.as_str()), ("[x]", Tone::White, "merged"));
    let (check, tone, status) = review_row_cells(&candidate(false, 2, None));
    assert_eq!((check.text.as_str(), tone, status.text.as_str()), ("[ ]", Tone::Yellow, "2 ahead"));
    let (i, d) = done_row_cells(&candidate(
        true,
        0,
        Some(DeleteResult { ok: true, sha: Some("abc1234".into()), message: String::new() }),
    ));
    assert_eq!((i.text.as_str(), d.text.as_str()), ("✓", "deleted (was abc1234)"));
    let (i, d) = done_row_cells(&candidate(
        true,
        0,
        Some(DeleteResult { ok: false, sha: None, message: "error: nope".into() }),
    ));
    assert_eq!((i.text.as_str(), d.text.as_str(), d.tone), ("✗", "error: nope", Tone::Red));
    let (i, d) = done_row_cells(&candidate(false, 0, None));
    assert_eq!((i.text.as_str(), d.text.as_str()), ("–", "kept"));
}

#[test]
fn small_texts() {
    assert_eq!(spinner_frame(0), "⠋");
    assert_eq!(spinner_frame(19), "⠏");
    assert_eq!(delete_prompt(3), " Delete 3 branch(es)? ");
    assert_eq!(roots_line(&vec!["/a".to_string(), "/b".to_string()]), "/a, /b");
    assert_eq!(roots_line(&vec![]), "");
    assert_eq!(last_seen(None, 100), "-");
    assert_eq!(last_seen(Some(0), 7_200), "2h ago");
}

#[test]
fn help_lists_the_screen_keys() {
    let home = bindings(Screen::Home);
    assert_eq!(home.len(), 4);
    assert_eq!(home[1], ("⏎", "open feature"));
    let prune = bindings(Screen::Prune);
    assert_eq!(prune.len(), 8);
    assert_eq!(prune[4], ("y / n", "confirm / cancel"));
    assert_eq!(bindings(Screen::Update).last(), Some(&("q", "quit")));
}
